//! The element tree: a recursive description of directories and files whose
//! absolute paths are derived top-down from a root, and a writer that
//! materializes the description on a [`Disk`].

use vstd::prelude::*;

use crate::disk::Disk;
use crate::error::Error;
use crate::format::FileFormat;
use crate::utils::{join_path, spec_join, str_eq};

verus! {

/// Whether an element stands for a directory or for a file.
#[derive(Debug, Clone, Copy, PartialEq, Eq, Structural)]
pub enum ElementType {
    /// A directory, which may have children.
    Directory,
    /// A file, a leaf of the tree.
    File,
}

/// Whether a described node stands for a directory or a file; the older
/// name of the node kinds, kept beside [`ElementType`].
#[derive(Debug, Clone, Copy, PartialEq, Eq, Structural)]
pub enum Format {
    /// A directory node.
    Directory,
    /// A file node.
    File,
}

/// What a file node can carry: a value already rendered as text.
pub trait Content {
    /// The text this value contributes to a file node.
    fn content_text(&self) -> String;
}

impl Content for String {
    fn content_text(&self) -> (r: String)
        ensures
            r@ == self@,
    {
        self.clone()
    }
}

/// One node of the tree: a named directory or file, its derived absolute
/// path, and, for files, an optional format and content.
#[derive(Debug)]
pub struct Element {
    /// The node's own name, one path component; the root may be unnamed.
    pub name: String,
    /// The absolute path, derived from the parent's path and `name`.
    pub path: String,
    /// Whether this node is a directory or a file.
    pub element_type: ElementType,
    /// The format of the file's content, where one was chosen.
    pub element_format: Option<FileFormat>,
    /// The file's content as text, where content was given.
    pub content: Option<String>,
    /// The children, in declaration order; meaningful for directories.
    pub children: Vec<Element>,
}

/// The characters of an optional text.
pub open spec fn opt_text(content: Option<String>) -> Option<Seq<char>> {
    match content {
        Some(s) => Some(s@),
        None => None,
    }
}

/// The text a file node writes: its content where both content and a format
/// were chosen, and empty text otherwise.
pub open spec fn node_text(e: Element) -> Seq<char> {
    match (e.content, e.element_format) {
        (Some(s), Some(_)) => s@,
        _ => Seq::empty(),
    }
}

/// Whether `a` and `b` are the same tree apart from their derived paths.
pub open spec fn same_shape(a: Element, b: Element) -> bool
    decreases a,
{
    &&& a.name@ == b.name@
    &&& a.element_type == b.element_type
    &&& a.element_format == b.element_format
    &&& opt_text(a.content) == opt_text(b.content)
    &&& a.children@.len() == b.children@.len()
    &&& forall|i: int|
        0 <= i < a.children@.len() ==> same_shape(#[trigger] a.children@[i], b.children@[i])
}

/// Whether every path in `e` is derived from `parent`: the node's path is
/// `parent` joined with its name, and each child's subtree is derived from
/// the node's path in turn.
pub open spec fn paths_from(e: Element, parent: Seq<char>) -> bool
    decreases e,
{
    &&& e.path@ == spec_join(parent, e.name@)
    &&& forall|i: int| 0 <= i < e.children@.len() ==> paths_from(#[trigger] e.children@[i], e.path@)
}

/// The directory paths that writing `e` creates.
pub open spec fn tree_dirs(e: Element) -> Set<Seq<char>>
    decreases e, 1int,
{
    let base: Set<Seq<char>> = if e.element_type is Directory {
        Set::empty().insert(e.path@)
    } else {
        Set::empty()
    };
    base.union(kids_dirs(e.children@))
}

/// The directory paths that writing each element of `s`, in order, creates.
pub open spec fn kids_dirs(s: Seq<Element>) -> Set<Seq<char>>
    decreases s, 0int,
{
    if s.len() == 0 {
        Set::empty()
    } else {
        kids_dirs(s.drop_last()).union(tree_dirs(s.last()))
    }
}

/// The file contents that writing `e` leaves behind, keyed by path; where a
/// path occurs more than once in the tree, the node written last wins.
pub open spec fn tree_files(e: Element) -> Map<Seq<char>, Seq<char>>
    decreases e, 1int,
{
    let base: Map<Seq<char>, Seq<char>> = if e.element_type is File {
        Map::empty().insert(e.path@, node_text(e))
    } else {
        Map::empty()
    };
    base.union_prefer_right(kids_files(e.children@))
}

/// The file contents that writing each element of `s`, in order, leaves.
pub open spec fn kids_files(s: Seq<Element>) -> Map<Seq<char>, Seq<char>>
    decreases s, 0int,
{
    if s.len() == 0 {
        Map::empty()
    } else {
        kids_files(s.drop_last()).union_prefer_right(tree_files(s.last()))
    }
}

pub(crate) proof fn lemma_set_union_assoc(a: Set<Seq<char>>, b: Set<Seq<char>>, c: Set<Seq<char>>)
    ensures
        a.union(b).union(c) == a.union(b.union(c)),
{
    assert(a.union(b).union(c) =~= a.union(b.union(c)));
}

pub(crate) proof fn lemma_map_override_assoc(
    a: Map<Seq<char>, Seq<char>>,
    b: Map<Seq<char>, Seq<char>>,
    c: Map<Seq<char>, Seq<char>>,
)
    ensures
        a.union_prefer_right(b).union_prefer_right(c) == a.union_prefer_right(
            b.union_prefer_right(c),
        ),
{
    assert(a.union_prefer_right(b).union_prefer_right(c) =~= a.union_prefer_right(
        b.union_prefer_right(c),
    ));
}

proof fn lemma_kids_take(s: Seq<Element>, i: int)
    requires
        0 <= i < s.len(),
    ensures
        kids_dirs(s.take(i + 1)) == kids_dirs(s.take(i)).union(tree_dirs(s[i])),
        kids_files(s.take(i + 1)) == kids_files(s.take(i)).union_prefer_right(tree_files(s[i])),
{
    assert(s.take(i + 1).drop_last() =~= s.take(i));
    assert(s.take(i + 1).last() == s[i]);
}

impl Element {
    /// A fresh node named `name`: a file with no path, format, content or
    /// children yet.
    pub fn new(name: &str) -> (r: Element)
        ensures
            r.name@ == name@,
            r.path@ == Seq::<char>::empty(),
            r.element_type == ElementType::File,
            r.element_format is None,
            r.content is None,
            r.children@.len() == 0,
    {
        Element {
            name: name.to_owned(),
            path: String::new(),
            element_type: ElementType::File,
            element_format: None,
            content: None,
            children: Vec::new(),
        }
    }

    /// Chooses whether this element is a directory or a file.
    pub fn set_type(self, element_type: ElementType) -> (r: Element)
        ensures
            r == (Element { element_type, ..self }),
    {
        Element { element_type, ..self }
    }

    /// Chooses the format of this element's content.
    pub fn set_format(self, format: FileFormat) -> (r: Element)
        ensures
            r == (Element { element_format: Some(format), ..self }),
    {
        Element { element_format: Some(format), ..self }
    }

    /// Gives this element its content, as text already rendered in the
    /// element's format.
    pub fn set_content(self, content: &str) -> (r: Element)
        ensures
            r.name == self.name,
            r.path == self.path,
            r.element_type == self.element_type,
            r.element_format == self.element_format,
            opt_text(r.content) == Some(content@),
            r.children == self.children,
    {
        Element { content: Some(content.to_owned()), ..self }
    }

    /// Places this element under `path`: its own path becomes `path` joined
    /// with its name. The children are not touched; attaching the element to
    /// a tree derives their paths (see [`Element::add_child`]).
    pub fn set_path(self, path: &str) -> (r: Element)
        ensures
            r.name == self.name,
            r.path@ == spec_join(path@, self.name@),
            r.element_type == self.element_type,
            r.element_format == self.element_format,
            r.content == self.content,
            r.children == self.children,
    {
        let path = join_path(path, self.name.as_str());
        Element { path, ..self }
    }

    /// The tree `e` with every path rederived from `parent`, and nothing
    /// else changed.
    pub fn rebased(e: &Element, parent: &str) -> (r: Element)
        ensures
            same_shape(*e, r),
            paths_from(r, parent@),
        decreases *e,
    {
        let path = join_path(parent, e.name.as_str());
        let mut kids: Vec<Element> = Vec::new();
        let mut i: usize = 0;
        while i < e.children.len()
            invariant
                i <= e.children@.len(),
                kids@.len() == i,
                forall|j: int|
                    0 <= j < i ==> same_shape(e.children@[j], #[trigger] kids@[j]) && paths_from(
                        kids@[j],
                        path@,
                    ),
            decreases e.children@.len() - i,
        {
            let c = Element::rebased(&e.children[i], path.as_str());
            kids.push(c);
            i = i + 1;
        }
        Element {
            name: e.name.clone(),
            path,
            element_type: e.element_type,
            element_format: e.element_format,
            content: e.content.clone(),
            children: kids,
        }
    }

    /// Attaches `element` as the last child; the older name of
    /// [`Element::add_child`].
    pub fn child(self, element: Element) -> (r: Element)
        ensures
            r.name == self.name,
            r.path == self.path,
            r.element_type == self.element_type,
            r.element_format == self.element_format,
            r.content == self.content,
            r.children@.len() == self.children@.len() + 1,
            forall|i: int| 0 <= i < self.children@.len() ==> r.children@[i] == self.children@[i],
            same_shape(element, r.children@.last()),
            paths_from(r.children@.last(), self.path@),
    {
        self.add_child(element)
    }

    /// Chooses the node kind by the older [`Format`] name.
    pub fn format(self, format: Format) -> (r: Element)
        ensures
            r == (Element {
                element_type: match format {
                    Format::Directory => ElementType::Directory,
                    Format::File => ElementType::File,
                },
                ..self
            }),
    {
        let element_type = match format {
            Format::Directory => ElementType::Directory,
            Format::File => ElementType::File,
        };
        Element { element_type, ..self }
    }

    /// Attaches `element` as the last child: its whole subtree is rebased
    /// under this element's path, so that every derived path stays
    /// consistent with the new shape of the tree.
    pub fn add_child(self, element: Element) -> (r: Element)
        ensures
            r.name == self.name,
            r.path == self.path,
            r.element_type == self.element_type,
            r.element_format == self.element_format,
            r.content == self.content,
            r.children@.len() == self.children@.len() + 1,
            forall|i: int| 0 <= i < self.children@.len() ==> r.children@[i] == self.children@[i],
            same_shape(element, r.children@.last()),
            paths_from(r.children@.last(), self.path@),
    {
        let c = Element::rebased(&element, self.path.as_str());
        let Element { name, path, element_type, element_format, content, mut children } = self;
        children.push(c);
        Element { name, path, element_type, element_format, content, children }
    }

    /// Checks that every path of `e`'s subtree is derived from `parent`,
    /// as [`paths_from`] states.
    pub fn check_paths(e: &Element, parent: &str) -> (b: bool)
        ensures
            b == paths_from(*e, parent@),
        decreases *e,
    {
        let expected = join_path(parent, e.name.as_str());
        if !str_eq(e.path.as_str(), expected.as_str()) {
            return false;
        }
        let mut i: usize = 0;
        while i < e.children.len()
            invariant
                i <= e.children@.len(),
                e.path@ == spec_join(parent@, e.name@),
                forall|j: int| 0 <= j < i ==> paths_from(#[trigger] e.children@[j], e.path@),
            decreases e.children@.len() - i,
        {
            if !Element::check_paths(&e.children[i], e.path.as_str()) {
                return false;
            }
            i = i + 1;
        }
        true
    }

    /// Materializes this node and, after it, each child's subtree in
    /// declaration order: a directory is created where absent and left
    /// untouched where present; a file is written unconditionally, with its
    /// content where it carries one and a format, and empty otherwise.
    pub fn write(&self, disk: &mut Disk) -> (r: Result<(), Error>)
        ensures
            r is Ok,
            final(disk).dirs() == old(disk).dirs().union(tree_dirs(*self)),
            final(disk).files() == old(disk).files().union_prefer_right(tree_files(*self)),
        decreases *self,
    {
        let ghost dirs0 = disk.dirs();
        let ghost files0 = disk.files();
        match self.element_type {
            ElementType::Directory => {
                if !disk.has_dir(self.path.as_str()) {
                    disk.mkdir(self.path.as_str());
                }
                proof {
                    assert(disk.dirs() =~= dirs0.union(Set::empty().insert(self.path@)));
                    assert(disk.files() =~= files0.union_prefer_right(
                        Map::<Seq<char>, Seq<char>>::empty(),
                    ));
                }
            },
            ElementType::File => {
                let text: String = if self.content.is_some() && self.element_format.is_some() {
                    self.content.as_ref().unwrap().clone()
                } else {
                    String::new()
                };
                proof {
                    assert(text@ == node_text(*self));
                }
                disk.write_file(self.path.as_str(), text.as_str());
                proof {
                    assert(disk.dirs() =~= dirs0.union(Set::empty()));
                    assert(disk.files() =~= files0.union_prefer_right(
                        Map::<Seq<char>, Seq<char>>::empty().insert(self.path@, node_text(*self)),
                    ));
                }
            },
        }
        let ghost dirs1 = disk.dirs();
        let ghost files1 = disk.files();
        let mut i: usize = 0;
        proof {
            assert(self.children@.take(0) =~= Seq::<Element>::empty());
        }
        while i < self.children.len()
            invariant
                i <= self.children@.len(),
                disk.dirs() == dirs1.union(kids_dirs(self.children@.take(i as int))),
                disk.files() == files1.union_prefer_right(
                    kids_files(self.children@.take(i as int)),
                ),
            decreases self.children@.len() - i,
        {
            let ghost dirs_before = disk.dirs();
            let ghost files_before = disk.files();
            let _ = self.children[i].write(disk);
            proof {
                lemma_kids_take(self.children@, i as int);
                lemma_set_union_assoc(
                    dirs1,
                    kids_dirs(self.children@.take(i as int)),
                    tree_dirs(self.children@[i as int]),
                );
                lemma_map_override_assoc(
                    files1,
                    kids_files(self.children@.take(i as int)),
                    tree_files(self.children@[i as int]),
                );
            }
            i = i + 1;
        }
        proof {
            assert(self.children@.take(self.children@.len() as int) =~= self.children@);
            assert(disk.dirs() =~= dirs0.union(tree_dirs(*self)));
            assert(disk.files() =~= files0.union_prefer_right(tree_files(*self)));
        }
        Ok(())
    }
}

/// Re-running the writer changes nothing: the directories a tree creates
/// are already present, and every file of the tree is rewritten with the
/// text it already holds. Existing directories and unrelated files are
/// intact either way.
pub proof fn lemma_write_idempotent(
    e: Element,
    dirs: Set<Seq<char>>,
    files: Map<Seq<char>, Seq<char>>,
)
    ensures
        dirs.union(tree_dirs(e)).union(tree_dirs(e)) == dirs.union(tree_dirs(e)),
        files.union_prefer_right(tree_files(e)).union_prefer_right(tree_files(e))
            == files.union_prefer_right(tree_files(e)),
        dirs.subset_of(dirs.union(tree_dirs(e))),
        forall|p: Seq<char>|
            files.dom().contains(p) && !tree_files(e).dom().contains(p) ==> files.union_prefer_right(
                tree_files(e),
            ).dom().contains(p) && files.union_prefer_right(tree_files(e))[p] == files[p],
{
    assert(dirs.union(tree_dirs(e)).union(tree_dirs(e)) =~= dirs.union(tree_dirs(e)));
    assert(files.union_prefer_right(tree_files(e)).union_prefer_right(tree_files(e))
        =~= files.union_prefer_right(tree_files(e)));
}

} // verus!
