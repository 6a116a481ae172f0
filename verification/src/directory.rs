//! A directory description built method by method: a name, a derived path,
//! nested directories and files, and a builder that materializes the whole
//! description on a [`Disk`].

use vstd::prelude::*;

use crate::disk::Disk;
use crate::element::{lemma_map_override_assoc, lemma_set_union_assoc};
use crate::error::Error;
use crate::file::File;
use crate::format::spec_extension;
use crate::utils::{join_path, spec_join};

verus! {

/// One described directory, with the directories and files under it.
#[derive(Debug)]
pub struct Directory {
    /// The directory's own name, one path component.
    pub name: String,
    /// The directory's absolute path, once a parent was chosen.
    pub path: String,
    /// Whether materializing may create missing ancestors as well.
    pub recursive: bool,
    /// The directories nested under this one.
    pub dirs: Vec<Directory>,
    /// The files lying directly in this directory.
    pub files: Vec<File>,
}

/// The directory paths that building `d` creates: its own and, after it,
/// those of every nested directory.
pub open spec fn dir_dirs(d: Directory) -> Set<Seq<char>>
    decreases d, 1int,
{
    Set::empty().insert(d.path@).union(dir_list_dirs(d.dirs@))
}

/// The directory paths that building each of `s`, in order, creates.
pub open spec fn dir_list_dirs(s: Seq<Directory>) -> Set<Seq<char>>
    decreases s, 0int,
{
    if s.len() == 0 {
        Set::empty()
    } else {
        dir_list_dirs(s.drop_last()).union(dir_dirs(s.last()))
    }
}

/// The file contents that building `d` leaves, keyed by path: the nested
/// directories' files first, then this directory's own files over them.
pub open spec fn dir_files(d: Directory) -> Map<Seq<char>, Seq<char>>
    decreases d, 1int,
{
    dir_list_files(d.dirs@).union_prefer_right(file_list_files(d.files@))
}

/// The file contents that building each of `s`, in order, leaves.
pub open spec fn dir_list_files(s: Seq<Directory>) -> Map<Seq<char>, Seq<char>>
    decreases s, 0int,
{
    if s.len() == 0 {
        Map::empty()
    } else {
        dir_list_files(s.drop_last()).union_prefer_right(dir_files(s.last()))
    }
}

/// The file contents that writing each file of `s`, in order, leaves.
pub open spec fn file_list_files(s: Seq<File>) -> Map<Seq<char>, Seq<char>>
    decreases s.len(),
{
    if s.len() == 0 {
        Map::empty()
    } else {
        file_list_files(s.drop_last()).insert(s.last().path@, s.last().content@)
    }
}

pub(crate) proof fn lemma_dir_list_take(s: Seq<Directory>, i: int)
    requires
        0 <= i < s.len(),
    ensures
        dir_list_dirs(s.take(i + 1)) == dir_list_dirs(s.take(i)).union(dir_dirs(s[i])),
        dir_list_files(s.take(i + 1)) == dir_list_files(s.take(i)).union_prefer_right(
            dir_files(s[i]),
        ),
{
    assert(s.take(i + 1).drop_last() =~= s.take(i));
    assert(s.take(i + 1).last() == s[i]);
}

pub(crate) proof fn lemma_file_list_take(s: Seq<File>, i: int)
    requires
        0 <= i < s.len(),
    ensures
        file_list_files(s.take(i + 1)) == file_list_files(s.take(i)).insert(
            s[i].path@,
            s[i].content@,
        ),
{
    assert(s.take(i + 1).drop_last() =~= s.take(i));
    assert(s.take(i + 1).last() == s[i]);
}

impl Directory {
    /// A fresh unnamed directory with no path and nothing under it.
    pub fn new() -> (r: Directory)
        ensures
            r.name@ == Seq::<char>::empty(),
            r.path@ == Seq::<char>::empty(),
            r.recursive == false,
            r.dirs@.len() == 0,
            r.files@.len() == 0,
    {
        Directory {
            name: String::new(),
            path: String::new(),
            recursive: false,
            dirs: Vec::new(),
            files: Vec::new(),
        }
    }

    /// Renames the directory.
    pub fn name(self, name: &str) -> (r: Directory)
        ensures
            r.name@ == name@,
            r.path == self.path,
            r.recursive == self.recursive,
            r.dirs == self.dirs,
            r.files == self.files,
    {
        Directory { name: name.to_owned(), ..self }
    }

    /// Chooses the directory's path outright.
    pub fn path(self, path: &str) -> (r: Directory)
        ensures
            r.name == self.name,
            r.path@ == path@,
            r.recursive == self.recursive,
            r.dirs == self.dirs,
            r.files == self.files,
    {
        Directory { path: path.to_owned(), ..self }
    }

    /// Places the directory under `path`: its own path becomes `path`
    /// joined with its name.
    pub fn parent(self, path: &str) -> (r: Directory)
        ensures
            r.name == self.name,
            r.path@ == spec_join(path@, self.name@),
            r.recursive == self.recursive,
            r.dirs == self.dirs,
            r.files == self.files,
    {
        let path = join_path(path, self.name.as_str());
        Directory { path, ..self }
    }

    /// Chooses whether materializing may create missing ancestors.
    pub fn recursive(self, recursive: bool) -> (r: Directory)
        ensures
            r.name == self.name,
            r.path == self.path,
            r.recursive == recursive,
            r.dirs == self.dirs,
            r.files == self.files,
    {
        Directory { recursive, ..self }
    }

    /// Nests `dir` under this directory, as it stands.
    pub fn dir(self, dir: Directory) -> (r: Directory)
        ensures
            r.name == self.name,
            r.path == self.path,
            r.recursive == self.recursive,
            r.files == self.files,
            r.dirs@.len() == self.dirs@.len() + 1,
            forall|i: int| 0 <= i < self.dirs@.len() ==> r.dirs@[i] == self.dirs@[i],
            r.dirs@.last() == dir,
    {
        let Directory { name, path, recursive, mut dirs, files } = self;
        dirs.push(dir);
        Directory { name, path, recursive, dirs, files }
    }

    /// Adds `file` to this directory, placing it under the directory's
    /// path by its name with the format's extension.
    pub fn file(self, file: File) -> (r: Directory)
        ensures
            r.name == self.name,
            r.path == self.path,
            r.recursive == self.recursive,
            r.dirs == self.dirs,
            r.files@.len() == self.files@.len() + 1,
            forall|i: int| 0 <= i < self.files@.len() ==> r.files@[i] == self.files@[i],
            r.files@.last().name == file.name,
            r.files@.last().path@ == spec_join(
                self.path@,
                file.name@ + spec_extension(file.format),
            ),
            r.files@.last().format == file.format,
            r.files@.last().content == file.content,
    {
        let placed = file.parent(self.path.as_str());
        let Directory { name, path, recursive, dirs, mut files } = self;
        files.push(placed);
        Directory { name, path, recursive, dirs, files }
    }

    /// Materializes the description: this directory is created where
    /// absent, then each nested directory's subtree, then this directory's
    /// files, each written unconditionally.
    pub fn build(&self, disk: &mut Disk) -> (r: Result<(), Error>)
        ensures
            r is Ok,
            final(disk).dirs() == old(disk).dirs().union(dir_dirs(*self)),
            final(disk).files() == old(disk).files().union_prefer_right(dir_files(*self)),
        decreases *self,
    {
        let ghost dirs0 = disk.dirs();
        let ghost files0 = disk.files();
        if !disk.has_dir(self.path.as_str()) {
            disk.mkdir(self.path.as_str());
        }
        proof {
            assert(disk.dirs() =~= dirs0.union(Set::empty().insert(self.path@)));
        }
        let ghost dirs1 = disk.dirs();
        let mut i: usize = 0;
        proof {
            assert(self.dirs@.take(0) =~= Seq::<Directory>::empty());
        }
        while i < self.dirs.len()
            invariant
                i <= self.dirs@.len(),
                disk.dirs() == dirs1.union(dir_list_dirs(self.dirs@.take(i as int))),
                disk.files() == files0.union_prefer_right(
                    dir_list_files(self.dirs@.take(i as int)),
                ),
                dirs1 == dirs0.union(Set::empty().insert(self.path@)),
            decreases self.dirs@.len() - i,
        {
            let _ = self.dirs[i].build(disk);
            proof {
                lemma_dir_list_take(self.dirs@, i as int);
                lemma_set_union_assoc(
                    dirs1,
                    dir_list_dirs(self.dirs@.take(i as int)),
                    dir_dirs(self.dirs@[i as int]),
                );
                lemma_map_override_assoc(
                    files0,
                    dir_list_files(self.dirs@.take(i as int)),
                    dir_files(self.dirs@[i as int]),
                );
            }
            i = i + 1;
        }
        proof {
            assert(self.dirs@.take(self.dirs@.len() as int) =~= self.dirs@);
        }
        let ghost files1 = disk.files();
        let mut j: usize = 0;
        proof {
            assert(self.files@.take(0) =~= Seq::<File>::empty());
            assert(files1.union_prefer_right(Map::<Seq<char>, Seq<char>>::empty()) =~= files1);
        }
        while j < self.files.len()
            invariant
                j <= self.files@.len(),
                disk.dirs() == dirs1.union(dir_list_dirs(self.dirs@)),
                disk.files() == files1.union_prefer_right(
                    file_list_files(self.files@.take(j as int)),
                ),
                files1 == files0.union_prefer_right(dir_list_files(self.dirs@)),
            decreases self.files@.len() - j,
        {
            let _ = self.files[j].write(disk);
            proof {
                lemma_file_list_take(self.files@, j as int);
                assert(files1.union_prefer_right(
                    file_list_files(self.files@.take(j as int)),
                ).insert(self.files@[j as int].path@, self.files@[j as int].content@)
                    =~= files1.union_prefer_right(
                    file_list_files(self.files@.take(j + 1)),
                ));
            }
            j = j + 1;
        }
        proof {
            assert(self.files@.take(self.files@.len() as int) =~= self.files@);
            assert(disk.dirs() =~= dirs0.union(dir_dirs(*self)));
            assert(disk.files() =~= files0.union_prefer_right(dir_files(*self)));
        }
        Ok(())
    }
}

} // verus!
