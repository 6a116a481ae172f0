//! Builder-style descriptions of an application's layout: files that may
//! carry rendered data, directories of them, and a configuration builder
//! that materializes the whole description on a [`Disk`].

use vstd::prelude::*;

use crate::codec;
use crate::codec::{spec_json_render, spec_toml_render};
use crate::disk::Disk;
use crate::element::{lemma_map_override_assoc, lemma_set_union_assoc};
use crate::error::Error;
use crate::format::{spec_extension, FileFormat};
use crate::record::{json_record, spec_json_record};
use crate::utils::{join_path, spec_join};

verus! {

/// One described file: a bare name, a derived path, optional rendered
/// data, and the format the data is rendered in.
#[derive(Debug)]
pub struct FileBuilder {
    /// The file's name, without the format's extension.
    pub name: String,
    /// The file's absolute path, once a parent was chosen.
    pub path: String,
    /// The rendered data, where any was given.
    pub data: Option<String>,
    /// The format of the data.
    pub format: FileFormat,
}

/// The text a described file materializes as: its data, or empty text
/// where none was given.
pub open spec fn fileb_text(f: FileBuilder) -> Seq<char> {
    match f.data {
        Some(d) => d@,
        None => Seq::empty(),
    }
}

impl FileBuilder {
    /// A fresh unnamed TOML file with no path and no data.
    pub fn new() -> (r: FileBuilder)
        ensures
            r.name@ == Seq::<char>::empty(),
            r.path@ == Seq::<char>::empty(),
            r.data is None,
            r.format == FileFormat::TOML,
    {
        FileBuilder {
            name: String::new(),
            path: String::new(),
            data: None,
            format: FileFormat::TOML,
        }
    }

    /// Renames the file.
    pub fn name(self, name: &str) -> (r: FileBuilder)
        ensures
            r.name@ == name@,
            r.path == self.path,
            r.data == self.data,
            r.format == self.format,
    {
        FileBuilder { name: name.to_owned(), ..self }
    }

    /// The file's name with its format's extension appended.
    pub fn get_name(&self) -> (r: String)
        ensures
            r@ == self.name@ + spec_extension(self.format),
    {
        self.format.ext(self.name.as_str())
    }

    /// The text currently on disk at the file's path, where any stands.
    pub fn current(&self, disk: &Disk) -> (r: Option<String>)
        ensures
            match r {
                Some(s) => disk.files().dom().contains(self.path@) && s@ == disk.files()[self.path@],
                None => !disk.files().dom().contains(self.path@),
            },
    {
        disk.read(self.path.as_str())
    }

    /// Chooses the file's format.
    pub fn format(self, format: FileFormat) -> (r: FileBuilder)
        ensures
            r == (FileBuilder { format, ..self }),
    {
        FileBuilder { format, ..self }
    }

    /// Places the file under `path` by its extended name.
    pub fn parent(self, path: &str) -> (r: FileBuilder)
        ensures
            r.name == self.name,
            r.path@ == spec_join(path@, self.name@ + spec_extension(self.format)),
            r.data == self.data,
            r.format == self.format,
    {
        let ext_name = self.get_name();
        let path = join_path(path, ext_name.as_str());
        FileBuilder { path, ..self }
    }

    /// Places the file under `path` by its extended name.
    pub fn path(self, path: &str) -> (r: FileBuilder)
        ensures
            r.name == self.name,
            r.path@ == spec_join(path@, self.name@ + spec_extension(self.format)),
            r.data == self.data,
            r.format == self.format,
    {
        self.parent(path)
    }

    /// Renders `value` in the file's format and makes it the data:
    /// exactly the text the format's serializer gives the value. A plain
    /// file takes no typed value and is refused.
    pub fn data(self, value: &serde_json::Value) -> (r: Result<FileBuilder, Error>)
        ensures
            ({
                let rendered = match self.format {
                    FileFormat::TOML => spec_toml_render(*value),
                    FileFormat::JSON => spec_json_render(*value),
                    FileFormat::Plain => None,
                };
                &&& (r is Ok <==> self.format != FileFormat::Plain && rendered is Some)
                &&& match r {
                    Ok(f) => f.name == self.name && f.path == self.path && f.format == self.format
                        && f.data is Some && (rendered matches Some(t) && fileb_text(f) == t),
                    Err(e) => match self.format {
                        FileFormat::Plain => e matches Error::Generic(_),
                        FileFormat::TOML => e matches Error::TomlSerialize(_),
                        FileFormat::JSON => e matches Error::Json(_),
                    },
                }
            }),
    {
        let rendered: Result<String, Error> = match self.format {
            FileFormat::TOML => codec::toml_to_string_pretty(value),
            FileFormat::JSON => codec::json_to_string_pretty(value),
            FileFormat::Plain => Err(
                Error::Generic("a plain file's content is text, not a typed value".to_owned()),
            ),
        };
        match rendered {
            Ok(data) => Ok(FileBuilder { data: Some(data), ..self }),
            Err(e) => Err(e),
        }
    }

    /// Writes the data at the file's path; a file with no data is left
    /// untouched.
    pub fn write(&self, disk: &mut Disk) -> (r: Result<(), Error>)
        ensures
            r is Ok,
            self.data is Some ==> final(disk).files() == old(disk).files().insert(
                self.path@,
                fileb_text(*self),
            ),
            self.data is None ==> final(disk).files() == old(disk).files(),
            final(disk).dirs() == old(disk).dirs(),
    {
        if self.data.is_some() {
            let data = self.data.as_ref().unwrap().clone();
            disk.write_file(self.path.as_str(), data.as_str());
        }
        Ok(())
    }

    /// Creates the file and writes its data: the file ends up holding the
    /// data, or empty text where none was given.
    pub fn build(&self, disk: &mut Disk) -> (r: Result<(), Error>)
        ensures
            r is Ok,
            final(disk).files() == old(disk).files().insert(self.path@, fileb_text(*self)),
            final(disk).dirs() == old(disk).dirs(),
    {
        let data: String = if self.data.is_some() {
            self.data.as_ref().unwrap().clone()
        } else {
            String::new()
        };
        disk.write_file(self.path.as_str(), data.as_str());
        Ok(())
    }
}

/// One described directory, with nested directories and described files.
#[derive(Debug)]
pub struct DirectoryBuilder {
    /// The directory's own name, one path component.
    pub name: String,
    /// The directory's absolute path, once a parent was chosen.
    pub path: String,
    /// Whether materializing may create missing ancestors as well.
    pub recursive: bool,
    /// The directories nested under this one.
    pub dirs: Vec<DirectoryBuilder>,
    /// The files lying directly in this directory.
    pub files: Vec<FileBuilder>,
}

/// The directory paths that building `d` creates.
pub open spec fn dirb_dirs(d: DirectoryBuilder) -> Set<Seq<char>>
    decreases d, 1int,
{
    Set::empty().insert(d.path@).union(dirb_list_dirs(d.dirs@))
}

/// The directory paths that building each of `s`, in order, creates.
pub open spec fn dirb_list_dirs(s: Seq<DirectoryBuilder>) -> Set<Seq<char>>
    decreases s, 0int,
{
    if s.len() == 0 {
        Set::empty()
    } else {
        dirb_list_dirs(s.drop_last()).union(dirb_dirs(s.last()))
    }
}

/// The file contents that building `d` leaves, keyed by path.
pub open spec fn dirb_files(d: DirectoryBuilder) -> Map<Seq<char>, Seq<char>>
    decreases d, 1int,
{
    dirb_list_files(d.dirs@).union_prefer_right(fileb_list_files(d.files@))
}

/// The file contents that building each of `s`, in order, leaves.
pub open spec fn dirb_list_files(s: Seq<DirectoryBuilder>) -> Map<Seq<char>, Seq<char>>
    decreases s, 0int,
{
    if s.len() == 0 {
        Map::empty()
    } else {
        dirb_list_files(s.drop_last()).union_prefer_right(dirb_files(s.last()))
    }
}

/// The file contents that building each file of `s`, in order, leaves.
pub open spec fn fileb_list_files(s: Seq<FileBuilder>) -> Map<Seq<char>, Seq<char>>
    decreases s.len(),
{
    if s.len() == 0 {
        Map::empty()
    } else {
        fileb_list_files(s.drop_last()).insert(s.last().path@, fileb_text(s.last()))
    }
}

proof fn lemma_dirb_list_take(s: Seq<DirectoryBuilder>, i: int)
    requires
        0 <= i < s.len(),
    ensures
        dirb_list_dirs(s.take(i + 1)) == dirb_list_dirs(s.take(i)).union(dirb_dirs(s[i])),
        dirb_list_files(s.take(i + 1)) == dirb_list_files(s.take(i)).union_prefer_right(
            dirb_files(s[i]),
        ),
{
    assert(s.take(i + 1).drop_last() =~= s.take(i));
    assert(s.take(i + 1).last() == s[i]);
}

proof fn lemma_fileb_list_take(s: Seq<FileBuilder>, i: int)
    requires
        0 <= i < s.len(),
    ensures
        fileb_list_files(s.take(i + 1)) == fileb_list_files(s.take(i)).insert(
            s[i].path@,
            fileb_text(s[i]),
        ),
{
    assert(s.take(i + 1).drop_last() =~= s.take(i));
    assert(s.take(i + 1).last() == s[i]);
}

impl DirectoryBuilder {
    /// A fresh unnamed directory with no path and nothing under it.
    pub fn new() -> (r: DirectoryBuilder)
        ensures
            r.name@ == Seq::<char>::empty(),
            r.path@ == Seq::<char>::empty(),
            r.recursive == false,
            r.dirs@.len() == 0,
            r.files@.len() == 0,
    {
        DirectoryBuilder {
            name: String::new(),
            path: String::new(),
            recursive: false,
            dirs: Vec::new(),
            files: Vec::new(),
        }
    }

    /// Renames the directory.
    pub fn name(self, name: &str) -> (r: DirectoryBuilder)
        ensures
            r.name@ == name@,
            r.path == self.path,
            r.recursive == self.recursive,
            r.dirs == self.dirs,
            r.files == self.files,
    {
        DirectoryBuilder { name: name.to_owned(), ..self }
    }

    /// Chooses the directory's path outright.
    pub fn path(self, path: &str) -> (r: DirectoryBuilder)
        ensures
            r.name == self.name,
            r.path@ == path@,
            r.recursive == self.recursive,
            r.dirs == self.dirs,
            r.files == self.files,
    {
        DirectoryBuilder { path: path.to_owned(), ..self }
    }

    /// Places the directory under `path`: its own path becomes `path`
    /// joined with its name.
    pub fn parent(self, path: &str) -> (r: DirectoryBuilder)
        ensures
            r.name == self.name,
            r.path@ == spec_join(path@, self.name@),
            r.recursive == self.recursive,
            r.dirs == self.dirs,
            r.files == self.files,
    {
        let path = join_path(path, self.name.as_str());
        DirectoryBuilder { path, ..self }
    }

    /// Chooses whether materializing may create missing ancestors.
    pub fn recursive(self, recursive: bool) -> (r: DirectoryBuilder)
        ensures
            r.name == self.name,
            r.path == self.path,
            r.recursive == recursive,
            r.dirs == self.dirs,
            r.files == self.files,
    {
        DirectoryBuilder { recursive, ..self }
    }

    /// Nests `dir` under this directory, as it stands.
    pub fn dir(self, dir: DirectoryBuilder) -> (r: DirectoryBuilder)
        ensures
            r.name == self.name,
            r.path == self.path,
            r.recursive == self.recursive,
            r.files == self.files,
            r.dirs@.len() == self.dirs@.len() + 1,
            forall|i: int| 0 <= i < self.dirs@.len() ==> r.dirs@[i] == self.dirs@[i],
            r.dirs@.last() == dir,
    {
        let DirectoryBuilder { name, path, recursive, mut dirs, files } = self;
        dirs.push(dir);
        DirectoryBuilder { name, path, recursive, dirs, files }
    }

    /// Adds `file` to this directory, placing it under the directory's
    /// path by its extended name.
    pub fn file(self, file: FileBuilder) -> (r: DirectoryBuilder)
        ensures
            r.name == self.name,
            r.path == self.path,
            r.recursive == self.recursive,
            r.dirs == self.dirs,
            r.files@.len() == self.files@.len() + 1,
            forall|i: int| 0 <= i < self.files@.len() ==> r.files@[i] == self.files@[i],
            r.files@.last().name == file.name,
            r.files@.last().path@ == spec_join(
                self.path@,
                file.name@ + spec_extension(file.format),
            ),
            r.files@.last().data == file.data,
            r.files@.last().format == file.format,
    {
        let placed = file.parent(self.path.as_str());
        let DirectoryBuilder { name, path, recursive, dirs, mut files } = self;
        files.push(placed);
        DirectoryBuilder { name, path, recursive, dirs, files }
    }

    /// Materializes the description: this directory is created where
    /// absent, then each nested directory's subtree, then this directory's
    /// files.
    pub fn build(&self, disk: &mut Disk) -> (r: Result<(), Error>)
        ensures
            r is Ok,
            final(disk).dirs() == old(disk).dirs().union(dirb_dirs(*self)),
            final(disk).files() == old(disk).files().union_prefer_right(dirb_files(*self)),
        decreases *self,
    {
        let ghost dirs0 = disk.dirs();
        let ghost files0 = disk.files();
        if !disk.has_dir(self.path.as_str()) {
            disk.mkdir(self.path.as_str());
        }
        proof {
            assert(disk.dirs() =~= dirs0.union(Set::empty().insert(self.path@)));
        }
        let ghost dirs1 = disk.dirs();
        let mut i: usize = 0;
        proof {
            assert(self.dirs@.take(0) =~= Seq::<DirectoryBuilder>::empty());
        }
        while i < self.dirs.len()
            invariant
                i <= self.dirs@.len(),
                disk.dirs() == dirs1.union(dirb_list_dirs(self.dirs@.take(i as int))),
                disk.files() == files0.union_prefer_right(
                    dirb_list_files(self.dirs@.take(i as int)),
                ),
                dirs1 == dirs0.union(Set::empty().insert(self.path@)),
            decreases self.dirs@.len() - i,
        {
            let _ = self.dirs[i].build(disk);
            proof {
                lemma_dirb_list_take(self.dirs@, i as int);
                lemma_set_union_assoc(
                    dirs1,
                    dirb_list_dirs(self.dirs@.take(i as int)),
                    dirb_dirs(self.dirs@[i as int]),
                );
                lemma_map_override_assoc(
                    files0,
                    dirb_list_files(self.dirs@.take(i as int)),
                    dirb_files(self.dirs@[i as int]),
                );
            }
            i = i + 1;
        }
        proof {
            assert(self.dirs@.take(self.dirs@.len() as int) =~= self.dirs@);
        }
        let ghost files1 = disk.files();
        let mut j: usize = 0;
        proof {
            assert(self.files@.take(0) =~= Seq::<FileBuilder>::empty());
        }
        while j < self.files.len()
            invariant
                j <= self.files@.len(),
                disk.dirs() == dirs1.union(dirb_list_dirs(self.dirs@)),
                disk.files() == files1.union_prefer_right(
                    fileb_list_files(self.files@.take(j as int)),
                ),
                files1 == files0.union_prefer_right(dirb_list_files(self.dirs@)),
            decreases self.files@.len() - j,
        {
            let _ = self.files[j].build(disk);
            proof {
                lemma_fileb_list_take(self.files@, j as int);
                assert(files1.union_prefer_right(
                    fileb_list_files(self.files@.take(j as int)),
                ).insert(self.files@[j as int].path@, fileb_text(self.files@[j as int]))
                    =~= files1.union_prefer_right(fileb_list_files(self.files@.take(j + 1))));
            }
            j = j + 1;
        }
        proof {
            assert(self.files@.take(self.files@.len() as int) =~= self.files@);
            assert(disk.dirs() =~= dirs0.union(dirb_dirs(*self)));
            assert(disk.files() =~= files0.union_prefer_right(dirb_files(*self)));
        }
        Ok(())
    }
}

/// A whole layout under one project directory: a root, directories and
/// files, built method by method.
#[derive(Debug)]
pub struct ConfigBuilder {
    /// The project's name; the root lies at `base/project`.
    pub project: String,
    /// The root directory of the layout.
    pub root: DirectoryBuilder,
    /// The directories placed under the root.
    pub dirs: Vec<DirectoryBuilder>,
    /// The files placed directly under the root.
    pub files: Vec<FileBuilder>,
}

impl ConfigBuilder {
    /// A fresh builder with no project, no directories and no files.
    pub fn new() -> (r: ConfigBuilder)
        ensures
            r.project@ == Seq::<char>::empty(),
            r.root.path@ == Seq::<char>::empty(),
            r.dirs@.len() == 0,
            r.files@.len() == 0,
    {
        ConfigBuilder {
            project: String::new(),
            root: DirectoryBuilder::new(),
            dirs: Vec::new(),
            files: Vec::new(),
        }
    }

    /// Chooses the project: the root directory is placed at
    /// `base/project`.
    pub fn project(self, project: &str, base: &str) -> (r: ConfigBuilder)
        ensures
            r.project@ == project@,
            r.root.path@ == spec_join(base@, project@),
            r.dirs == self.dirs,
            r.files == self.files,
    {
        let root = DirectoryBuilder::new().name(project).parent(base);
        ConfigBuilder { project: project.to_owned(), root, ..self }
    }

    /// Places `dir` under the root: the directory's own path is derived
    /// from the root, and each of its direct files is placed under the
    /// directory in turn. Directories nested deeper keep the paths they
    /// were built with.
    pub fn dir(self, dir: DirectoryBuilder) -> (r: ConfigBuilder)
        ensures
            r.project == self.project,
            r.root == self.root,
            r.files == self.files,
            r.dirs@.len() == self.dirs@.len() + 1,
            forall|i: int| 0 <= i < self.dirs@.len() ==> r.dirs@[i] == self.dirs@[i],
            r.dirs@.last().name == dir.name,
            r.dirs@.last().path@ == spec_join(self.root.path@, dir.name@),
            r.dirs@.last().dirs == dir.dirs,
            r.dirs@.last().files@.len() == dir.files@.len(),
            forall|k: int|
                0 <= k < dir.files@.len() ==> {
                    &&& (#[trigger] r.dirs@.last().files@[k]).name == dir.files@[k].name
                    &&& r.dirs@.last().files@[k].data == dir.files@[k].data
                    &&& r.dirs@.last().files@[k].format == dir.files@[k].format
                    &&& r.dirs@.last().files@[k].path@ == spec_join(
                        spec_join(self.root.path@, dir.name@),
                        dir.files@[k].name@ + spec_extension(dir.files@[k].format),
                    )
                },
    {
        let placed = dir.parent(self.root.path.as_str());
        let DirectoryBuilder { name, path, recursive, dirs: sub, files: mut old_files } = placed;
        let ghost fs0 = old_files@;
        let mut new_files: Vec<FileBuilder> = Vec::new();
        while old_files.len() > 0
            invariant
                old_files@ =~= fs0.skip(new_files@.len() as int),
                new_files@.len() <= fs0.len(),
                path@ == spec_join(self.root.path@, name@),
                forall|k: int|
                    0 <= k < new_files@.len() ==> {
                        &&& (#[trigger] new_files@[k]).name == fs0[k].name
                        &&& new_files@[k].data == fs0[k].data
                        &&& new_files@[k].format == fs0[k].format
                        &&& new_files@[k].path@ == spec_join(
                            path@,
                            fs0[k].name@ + spec_extension(fs0[k].format),
                        )
                    },
            decreases old_files@.len(),
        {
            let f = old_files.remove(0);
            proof {
                assert(f == fs0[new_files@.len() as int]);
            }
            let f = f.parent(path.as_str());
            new_files.push(f);
            proof {
                assert(old_files@ =~= fs0.skip(new_files@.len() as int));
            }
        }
        let placed = DirectoryBuilder { name, path, recursive, dirs: sub, files: new_files };
        let ConfigBuilder { project, root, mut dirs, files } = self;
        dirs.push(placed);
        ConfigBuilder { project, root, dirs, files }
    }

    /// Places `file` directly under the root, by its extended name.
    pub fn file(self, file: FileBuilder) -> (r: ConfigBuilder)
        ensures
            r.project == self.project,
            r.root == self.root,
            r.dirs == self.dirs,
            r.files@.len() == self.files@.len() + 1,
            forall|i: int| 0 <= i < self.files@.len() ==> r.files@[i] == self.files@[i],
            r.files@.last().name == file.name,
            r.files@.last().path@ == spec_join(
                self.root.path@,
                file.name@ + spec_extension(file.format),
            ),
            r.files@.last().data == file.data,
            r.files@.last().format == file.format,
    {
        let placed = file.parent(self.root.path.as_str());
        let ConfigBuilder { project, root, dirs, mut files } = self;
        files.push(placed);
        ConfigBuilder { project, root, dirs, files }
    }

    /// Materializes the layout: the root directory, then each directory's
    /// subtree, then the root's own files, and last the layout's
    /// self-description at the root's `app.json`, which records the
    /// project's name.
    pub fn build(&self, disk: &mut Disk) -> (r: Result<(), Error>)
        ensures
            r is Ok,
            final(disk).dirs() == old(disk).dirs().insert(self.root.path@).union(
                dirb_list_dirs(self.dirs@),
            ),
            final(disk).files() == old(disk).files().union_prefer_right(
                dirb_list_files(self.dirs@),
            ).union_prefer_right(fileb_list_files(self.files@)).insert(
                spec_join(self.root.path@, "app.json"@),
                spec_json_record("project"@, self.project@),
            ),
    {
        let ghost dirs0 = disk.dirs();
        let ghost files0 = disk.files();
        if !disk.has_dir(self.root.path.as_str()) {
            disk.mkdir(self.root.path.as_str());
        }
        proof {
            assert(disk.dirs() =~= dirs0.insert(self.root.path@));
        }
        let ghost dirs1 = disk.dirs();
        let mut i: usize = 0;
        proof {
            assert(self.dirs@.take(0) =~= Seq::<DirectoryBuilder>::empty());
        }
        while i < self.dirs.len()
            invariant
                i <= self.dirs@.len(),
                disk.dirs() == dirs1.union(dirb_list_dirs(self.dirs@.take(i as int))),
                disk.files() == files0.union_prefer_right(
                    dirb_list_files(self.dirs@.take(i as int)),
                ),
                dirs1 == dirs0.insert(self.root.path@),
            decreases self.dirs@.len() - i,
        {
            let _ = self.dirs[i].build(disk);
            proof {
                lemma_dirb_list_take(self.dirs@, i as int);
                lemma_set_union_assoc(
                    dirs1,
                    dirb_list_dirs(self.dirs@.take(i as int)),
                    dirb_dirs(self.dirs@[i as int]),
                );
                lemma_map_override_assoc(
                    files0,
                    dirb_list_files(self.dirs@.take(i as int)),
                    dirb_files(self.dirs@[i as int]),
                );
            }
            i = i + 1;
        }
        proof {
            assert(self.dirs@.take(self.dirs@.len() as int) =~= self.dirs@);
        }
        let ghost files1 = disk.files();
        let mut j: usize = 0;
        proof {
            assert(self.files@.take(0) =~= Seq::<FileBuilder>::empty());
        }
        while j < self.files.len()
            invariant
                j <= self.files@.len(),
                disk.dirs() == dirs1.union(dirb_list_dirs(self.dirs@)),
                disk.files() == files1.union_prefer_right(
                    fileb_list_files(self.files@.take(j as int)),
                ),
                files1 == files0.union_prefer_right(dirb_list_files(self.dirs@)),
            decreases self.files@.len() - j,
        {
            let _ = self.files[j].build(disk);
            proof {
                lemma_fileb_list_take(self.files@, j as int);
                assert(files1.union_prefer_right(
                    fileb_list_files(self.files@.take(j as int)),
                ).insert(self.files@[j as int].path@, fileb_text(self.files@[j as int]))
                    =~= files1.union_prefer_right(fileb_list_files(self.files@.take(j + 1))));
            }
            j = j + 1;
        }
        proof {
            assert(self.files@.take(self.files@.len() as int) =~= self.files@);
            assert(disk.dirs() =~= dirs0.insert(self.root.path@).union(
                dirb_list_dirs(self.dirs@),
            ));
        }
        let app = join_path(self.root.path.as_str(), "app.json");
        let rec = json_record("project", self.project.as_str());
        disk.write_file(app.as_str(), rec.as_str());
        Ok(())
    }

    /// Rebuilds the layout on the disk: the same effect as
    /// [`ConfigBuilder::build`].
    pub fn update(&self, disk: &mut Disk) -> (r: Result<(), Error>)
        ensures
            r is Ok,
            final(disk).dirs() == old(disk).dirs().insert(self.root.path@).union(
                dirb_list_dirs(self.dirs@),
            ),
            final(disk).files() == old(disk).files().union_prefer_right(
                dirb_list_files(self.dirs@),
            ).union_prefer_right(fileb_list_files(self.files@)).insert(
                spec_join(self.root.path@, "app.json"@),
                spec_json_record("project"@, self.project@),
            ),
    {
        self.build(disk)
    }

    /// Checks the description itself; a description built through these
    /// methods is always coherent.
    pub fn validate() -> (r: Result<(), Error>)
        ensures
            r is Ok,
    {
        Ok(())
    }

    /// The text of the layout's `app.json` under the root, where any
    /// stands.
    pub fn current(&self, disk: &Disk) -> (r: Option<String>)
        ensures
            match r {
                Some(s) => disk.files().dom().contains(spec_join(self.root.path@, "app.json"@))
                    && s@ == disk.files()[spec_join(self.root.path@, "app.json"@)],
                None => !disk.files().dom().contains(spec_join(self.root.path@, "app.json"@)),
            },
    {
        let p = join_path(self.root.path.as_str(), "app.json");
        disk.read(p.as_str())
    }
}

} // verus!
