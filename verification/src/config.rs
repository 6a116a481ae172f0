//! The configuration tree of an application: its metadata, a root element
//! holding the described directory layout, and the writer that materializes
//! the layout and the `app.toml` self-description on a [`Disk`].

use vstd::prelude::*;

use crate::codec;
use crate::codec::{spec_field_text, spec_json_parse, spec_json_render, spec_toml_parse,
    spec_toml_render};
use crate::disk::Disk;
use crate::element::{paths_from, same_shape, tree_dirs, tree_files, Element, ElementType};
use crate::error::Error;
use crate::format::FileFormat;
use crate::record::{record_line, spec_record_line};
use crate::utils::{join_path, spec_join, str_eq};

verus! {

/// An application's configuration: descriptive metadata and the element
/// tree that lays out its files under `base`.
#[derive(Debug)]
pub struct Config {
    /// The application's name; the tree lives under `base/name`.
    pub name: String,
    /// The application's author.
    pub author: String,
    /// The application's version text.
    pub version: String,
    /// What the application is about.
    pub about: String,
    /// The element tree; exactly one root, named after the application.
    pub elements: Vec<Element>,
    /// The base directory every path of the tree is derived from.
    pub base: String,
}

/// The record persisted as `app.toml`: the four metadata fields of `c`.
pub open spec fn spec_config_record(c: Config) -> Seq<char> {
    spec_record_line("name"@, c.name@) + spec_record_line("author"@, c.author@)
        + spec_record_line("version"@, c.version@) + spec_record_line("about"@, c.about@)
}

/// Whether the `app.toml` record of `name` under `base` stands in `files`
/// and reads back: it parses as TOML and yields all four metadata fields
/// as strings.
pub open spec fn spec_current_some(
    name: Seq<char>,
    base: Seq<char>,
    files: Map<Seq<char>, Seq<char>>,
) -> bool {
    let path = spec_join(spec_join(base, name), "app.toml"@);
    &&& files.dom().contains(path)
    &&& match spec_toml_parse(files[path]) {
        Some(v) => {
            &&& spec_field_text(v, "name"@) is Some
            &&& spec_field_text(v, "author"@) is Some
            &&& spec_field_text(v, "version"@) is Some
            &&& spec_field_text(v, "about"@) is Some
        },
        None => false,
    }
}

impl Config {
    /// The path of the tree's root: `base` joined with the name.
    pub open spec fn spec_root_path(&self) -> Seq<char> {
        spec_join(self.base@, self.name@)
    }

    /// The path of the persisted self-description.
    pub open spec fn spec_app_file(&self) -> Seq<char> {
        spec_join(self.spec_root_path(), "app.toml"@)
    }

    /// A well-formed configuration: one root element, named after the
    /// application, with every path of the tree derived from `base`.
    pub open spec fn wf(&self) -> bool {
        &&& self.elements@.len() == 1
        &&& self.elements@[0].name@ == self.name@
        &&& paths_from(self.elements@[0], self.base@)
    }

    /// A configuration for the application `name`, rooted at `base`: its
    /// tree holds the application directory with an empty `app.toml` file.
    pub fn new(name: &str, base: &str) -> (r: Config)
        ensures
            r.name@ == name@,
            r.author@ == Seq::<char>::empty(),
            r.version@ == Seq::<char>::empty(),
            r.about@ == Seq::<char>::empty(),
            r.base@ == base@,
            r.wf(),
            r.elements@[0].element_type == ElementType::Directory,
            r.elements@[0].children@.len() == 1,
            r.elements@[0].children@[0].name@ == "app.toml"@,
            r.elements@[0].children@[0].element_type == ElementType::File,
            r.elements@[0].children@[0].content is None,
    {
        proof {
            reveal_strlit("");
        }
        let tree = Element::new("").set_type(ElementType::Directory).add_child(
            Element::new("app.toml"),
        );
        let root_path = join_path(base, name);
        let reb = Element::rebased(&tree, root_path.as_str());
        proof {
            assert(reb.name@.len() == 0);
            assert(reb.path@ == root_path@);
            assert(same_shape(tree.children@[0], reb.children@[0]));
            assert(paths_from(reb.children@[0], reb.path@));
        }
        let Element { name: _, path, element_type, element_format, content, children } = reb;
        let root = Element {
            name: name.to_owned(),
            path,
            element_type,
            element_format,
            content,
            children,
        };
        let mut elements: Vec<Element> = Vec::new();
        elements.push(root);
        let r = Config {
            name: name.to_owned(),
            author: String::new(),
            version: String::new(),
            about: String::new(),
            elements,
            base: base.to_owned(),
        };
        proof {
            assert(r.elements@[0].path@ == spec_join(base@, name@));
            assert forall|i: int| 0 <= i < r.elements@[0].children@.len() implies paths_from(
                #[trigger] r.elements@[0].children@[i],
                r.elements@[0].path@,
            ) by {
                assert(r.elements@[0].children@[i] == reb.children@[i]);
            }
            assert(paths_from(r.elements@[0], base@));
        }
        r
    }

    /// Renames the application: the root is renamed and every path of the
    /// tree is rederived, so the layout moves under `base/name`.
    pub fn name(self, name: &str) -> (r: Config)
        requires
            self.wf(),
        ensures
            r.name@ == name@,
            r.author == self.author,
            r.version == self.version,
            r.about == self.about,
            r.base == self.base,
            r.wf(),
            r.elements@[0].children@.len() == self.elements@[0].children@.len(),
    {
        let mut elements = self.elements;
        let root = elements.remove(0);
        let Element { name: _, path: _, element_type, element_format, content, children } = root;
        let renamed = Element {
            name: name.to_owned(),
            path: String::new(),
            element_type,
            element_format,
            content,
            children,
        };
        let reb = Element::rebased(&renamed, self.base.as_str());
        proof {
            assert(reb.name@ == name@);
        }
        let mut out: Vec<Element> = Vec::new();
        out.push(reb);
        Config {
            name: name.to_owned(),
            author: self.author,
            version: self.version,
            about: self.about,
            elements: out,
            base: self.base,
        }
    }

    /// Sets the author of the application.
    pub fn author(self, author: &str) -> (r: Config)
        ensures
            r.author@ == author@,
            r.name == self.name,
            r.version == self.version,
            r.about == self.about,
            r.base == self.base,
            r.elements == self.elements,
            self.wf() ==> r.wf(),
    {
        Config { author: author.to_owned(), ..self }
    }

    /// Sets the version of the application.
    pub fn version(self, version: &str) -> (r: Config)
        ensures
            r.version@ == version@,
            r.name == self.name,
            r.author == self.author,
            r.about == self.about,
            r.base == self.base,
            r.elements == self.elements,
            self.wf() ==> r.wf(),
    {
        Config { version: version.to_owned(), ..self }
    }

    /// Sets what the application is about.
    pub fn about(self, about: &str) -> (r: Config)
        ensures
            r.about@ == about@,
            r.name == self.name,
            r.author == self.author,
            r.version == self.version,
            r.base == self.base,
            r.elements == self.elements,
            self.wf() ==> r.wf(),
    {
        Config { about: about.to_owned(), ..self }
    }

    /// The directory the tree lives under: `base` joined with the name.
    pub fn path(&self) -> (r: String)
        ensures
            r@ == self.spec_root_path(),
    {
        join_path(self.base.as_str(), self.name.as_str())
    }

    /// Attaches `element` under the root: its whole subtree is rebased
    /// under the root's path, keeping every derived path consistent.
    pub fn add(self, element: Element) -> (r: Config)
        requires
            self.wf(),
        ensures
            r.name == self.name,
            r.author == self.author,
            r.version == self.version,
            r.about == self.about,
            r.base == self.base,
            r.wf(),
            r.elements@[0].element_type == self.elements@[0].element_type,
            r.elements@[0].element_format == self.elements@[0].element_format,
            r.elements@[0].content == self.elements@[0].content,
            r.elements@[0].path == self.elements@[0].path,
            r.elements@[0].children@.len() == self.elements@[0].children@.len() + 1,
            forall|i: int|
                0 <= i < self.elements@[0].children@.len() ==> r.elements@[0].children@[i]
                    == self.elements@[0].children@[i],
            same_shape(element, r.elements@[0].children@.last()),
            paths_from(r.elements@[0].children@.last(), self.elements@[0].path@),
    {
        let ghost root0 = self.elements@[0];
        let mut elements = self.elements;
        let root = elements.remove(0);
        let root = root.add_child(element);
        let mut out: Vec<Element> = Vec::new();
        out.push(root);
        let r = Config {
            name: self.name,
            author: self.author,
            version: self.version,
            about: self.about,
            elements: out,
            base: self.base,
        };
        proof {
            let root1 = r.elements@[0];
            assert(root1.path == root0.path && root1.name == root0.name);
            assert(paths_from(root0, self.base@));
            assert forall|i: int| 0 <= i < root1.children@.len() implies paths_from(
                #[trigger] root1.children@[i],
                root1.path@,
            ) by {
                if i < root0.children@.len() {
                    assert(root1.children@[i] == root0.children@[i]);
                    assert(paths_from(root0.children@[i], root0.path@));
                } else {
                    assert(root1.children@[i] == root1.children@.last());
                }
            }
            assert(paths_from(root1, self.base@));
        }
        r
    }

    /// Rederives the paths of everything below `element` from the
    /// element's own path: each child's subtree is rebased, and the
    /// element itself is left as it stands.
    pub fn fill_paths(element: &mut Element)
        ensures
            final(element).name == old(element).name,
            final(element).path == old(element).path,
            final(element).element_type == old(element).element_type,
            final(element).element_format == old(element).element_format,
            final(element).content == old(element).content,
            final(element).children@.len() == old(element).children@.len(),
            forall|i: int|
                0 <= i < old(element).children@.len() ==> same_shape(
                    old(element).children@[i],
                    #[trigger] final(element).children@[i],
                ) && paths_from(final(element).children@[i], old(element).path@),
    {
        let path = element.path.clone();
        let mut kids: Vec<Element> = Vec::new();
        let mut i: usize = 0;
        while i < element.children.len()
            invariant
                *element == *old(element),
                path@ == old(element).path@,
                i <= element.children@.len(),
                kids@.len() == i,
                forall|j: int|
                    0 <= j < i ==> same_shape(old(element).children@[j], #[trigger] kids@[j])
                        && paths_from(kids@[j], old(element).path@),
            decreases element.children@.len() - i,
        {
            let c = Element::rebased(&element.children[i], path.as_str());
            kids.push(c);
            i = i + 1;
        }
        element.children = kids;
    }

    /// Checks that the configuration is well formed: one root element,
    /// named after the application, with every derived path consistent
    /// with `base`.
    pub fn validate(&self) -> (r: Result<(), Error>)
        ensures
            r is Ok <==> self.wf(),
    {
        if self.elements.len() != 1 {
            return Err(Error::Generic("the tree must have exactly one root".to_owned()));
        }
        if !str_eq(self.elements[0].name.as_str(), self.name.as_str()) {
            return Err(Error::Generic("the root is not named after the application".to_owned()));
        }
        if !Element::check_paths(&self.elements[0], self.base.as_str()) {
            return Err(Error::Generic("a derived path is stale".to_owned()));
        }
        Ok(())
    }

    /// Materializes `element`'s subtree on `disk`, ancestors before
    /// descendants and children in declaration order.
    pub fn write_recursive(element: &Element, disk: &mut Disk) -> (r: Result<(), Error>)
        ensures
            r is Ok,
            final(disk).dirs() == old(disk).dirs().union(tree_dirs(*element)),
            final(disk).files() == old(disk).files().union_prefer_right(tree_files(*element)),
    {
        element.write(disk)
    }

    /// Materializes the whole layout on `disk` and then persists the
    /// metadata record as `app.toml` under the root, its fields escaped so
    /// that any text can stand in the record.
    pub fn write(&self, disk: &mut Disk) -> (r: Result<(), Error>)
        requires
            self.wf(),
        ensures
            r is Ok,
            final(disk).dirs() == old(disk).dirs().union(tree_dirs(self.elements@[0])),
            final(disk).files() == old(disk).files().union_prefer_right(
                tree_files(self.elements@[0]),
            ).insert(self.spec_app_file(), spec_config_record(*self)),
    {
        let _ = Self::write_recursive(&self.elements[0], disk);
        let mut rec = record_line("name", self.name.as_str());
        rec.append(record_line("author", self.author.as_str()).as_str());
        rec.append(record_line("version", self.version.as_str()).as_str());
        rec.append(record_line("about", self.about.as_str()).as_str());
        let app_path = join_path(self.elements[0].path.as_str(), "app.toml");
        proof {
            assert(app_path@ == self.spec_app_file());
            assert(rec@ == spec_config_record(*self));
        }
        disk.write_file(app_path.as_str(), rec.as_str());
        Ok(())
    }

    /// Removes the application's directory with everything in it; what
    /// lies outside is untouched. Fails where the tree has no root.
    pub fn clear(&self, disk: &mut Disk) -> (r: Result<(), Error>)
        ensures
            r is Ok <==> self.elements@.len() > 0,
            r matches Err(e) ==> e matches Error::Generic(_) && *final(disk) == *old(disk),
            r is Ok ==> {
                let root = self.elements@[0].path@;
                &&& final(disk).dirs() == old(disk).dirs().difference(
                    Set::new(|p: Seq<char>| crate::disk::spec_within(root, p)),
                )
                &&& final(disk).files() == old(disk).files().remove_keys(
                    Set::new(|p: Seq<char>| crate::disk::spec_within(root, p)),
                )
            },
    {
        if self.elements.len() == 0 {
            return Err(Error::Generic("unable to get the root item".to_owned()));
        }
        disk.remove_subtree(self.elements[0].path.as_str());
        Ok(())
    }

    /// Whether the application's self-description has been written: the
    /// `app.toml` record exists, parses as TOML, and yields the four
    /// metadata fields.
    pub fn is_written(&self, disk: &Disk) -> (r: bool)
        ensures
            r == spec_current_some(self.name@, self.base@, disk.files()),
    {
        Config::current(self.name.as_str(), self.base.as_str(), disk).is_some()
    }

    /// The configuration that `name`'s `app.toml` under `base` describes,
    /// with an empty tree; `None` where the record is absent, does not
    /// parse as TOML, or lacks one of the four metadata fields.
    pub fn current(name: &str, base: &str, disk: &Disk) -> (r: Option<Config>)
        ensures
            r is Some <==> spec_current_some(name@, base@, disk.files()),
            r matches Some(c) ==> {
                let path = spec_join(spec_join(base@, name@), "app.toml"@);
                &&& c.base@ == base@
                &&& c.elements@.len() == 0
                &&& (spec_toml_parse(disk.files()[path]) matches Some(v) && {
                    &&& (spec_field_text(v, "name"@) matches Some(t) && c.name@ == t)
                    &&& (spec_field_text(v, "author"@) matches Some(t) && c.author@ == t)
                    &&& (spec_field_text(v, "version"@) matches Some(t) && c.version@ == t)
                    &&& (spec_field_text(v, "about"@) matches Some(t) && c.about@ == t)
                })
            },
    {
        let root = join_path(base, name);
        let app = join_path(root.as_str(), "app.toml");
        let text = match disk.read(app.as_str()) {
            Some(text) => text,
            None => {
                return None;
            },
        };
        let value = match codec::toml_from_str(text.as_str()) {
            Ok(value) => value,
            Err(_) => {
                return None;
            },
        };
        let got_name = match Self::record_field(&value, "name") {
            Some(s) => s,
            None => {
                return None;
            },
        };
        let author = match Self::record_field(&value, "author") {
            Some(s) => s,
            None => {
                return None;
            },
        };
        let version = match Self::record_field(&value, "version") {
            Some(s) => s,
            None => {
                return None;
            },
        };
        let about = match Self::record_field(&value, "about") {
            Some(s) => s,
            None => {
                return None;
            },
        };
        Some(
            Config {
                name: got_name,
                author,
                version,
                about,
                elements: Vec::new(),
                base: base.to_owned(),
            },
        )
    }

    /// The text under `key` in a parsed record, where it is a string.
    fn record_field(value: &serde_json::Value, key: &str) -> (r: Option<String>)
        ensures
            match r {
                Some(s) => spec_field_text(*value, key@) == Some(s@),
                None => spec_field_text(*value, key@) is None,
            },
    {
        match codec::value_field(value, key) {
            Some(field) => codec::value_str(field),
            None => None,
        }
    }

    /// Reads the file at `path` under `base` and parses it in `format`;
    /// `None` where the file is absent or does not parse, and otherwise
    /// exactly the parsed value. Plain files are read as text, not through
    /// this typed accessor.
    pub fn get(path: &str, format: FileFormat, base: &str, disk: &Disk) -> (r: Option<
        serde_json::Value,
    >)
        requires
            format != FileFormat::Plain,
        ensures
            ({
                let full = spec_join(base@, path@);
                let present = disk.files().dom().contains(full);
                &&& (!present ==> r is None)
                &&& (present ==> {
                    let parsed = match format {
                        FileFormat::TOML => spec_toml_parse(disk.files()[full]),
                        FileFormat::JSON => spec_json_parse(disk.files()[full]),
                        FileFormat::Plain => None,
                    };
                    r == parsed
                })
            }),
    {
        let full = join_path(base, path);
        let text = match disk.read(full.as_str()) {
            Some(text) => text,
            None => {
                return None;
            },
        };
        match format {
            FileFormat::TOML => match codec::toml_from_str(text.as_str()) {
                Ok(value) => Some(value),
                Err(_) => None,
            },
            FileFormat::JSON => match codec::json_from_str(text.as_str()) {
                Ok(value) => Some(value),
                Err(_) => None,
            },
            FileFormat::Plain => None,
        }
    }

    /// Renders `content` in `format` and writes it at `path` under `base`.
    /// On success exactly that file is created or replaced; where the codec
    /// refuses the value, the disk is left untouched and the format's
    /// serialization error comes back. Plain text is written with
    /// [`crate::Config::set_plain`], not through this typed accessor.
    pub fn set(
        path: &str,
        content: &serde_json::Value,
        format: FileFormat,
        base: &str,
        disk: &mut Disk,
    ) -> (r: Result<(), Error>)
        requires
            format != FileFormat::Plain,
        ensures
            ({
                let rendered = match format {
                    FileFormat::TOML => spec_toml_render(*content),
                    FileFormat::JSON => spec_json_render(*content),
                    FileFormat::Plain => None,
                };
                &&& (r is Ok <==> rendered is Some)
                &&& (r is Ok ==> (rendered matches Some(t) && final(disk).files() == old(
                    disk,
                ).files().insert(spec_join(base@, path@), t) && final(disk).dirs() == old(
                    disk,
                ).dirs()))
                &&& (r is Err ==> *final(disk) == *old(disk))
                &&& (r matches Err(e) ==> match format {
                    FileFormat::TOML => e matches Error::TomlSerialize(_),
                    FileFormat::JSON => e matches Error::Json(_),
                    FileFormat::Plain => true,
                })
            }),
    {
        let rendered: Result<String, Error> = match format {
            FileFormat::TOML => codec::toml_to_string_pretty(content),
            FileFormat::JSON => codec::json_to_string_pretty(content),
            FileFormat::Plain => Err(Error::Generic("plain content is written as text".to_owned())),
        };
        let text = match rendered {
            Ok(text) => text,
            Err(e) => {
                return Err(e);
            },
        };
        let full = join_path(base, path);
        disk.write_file(full.as_str(), text.as_str());
        Ok(())
    }
}

} // verus!
