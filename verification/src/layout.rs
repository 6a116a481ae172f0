//! A layout description under one project directory, built from
//! [`Directory`] and [`File`] values: the older, flat shape of the
//! configuration surface, materialized with the same verified effects.

use vstd::prelude::*;

use crate::directory::{
    dir_dirs, dir_files, dir_list_dirs, dir_list_files, file_list_files, lemma_dir_list_take,
    lemma_file_list_take, Directory,
};
use crate::disk::Disk;
use crate::element::{lemma_map_override_assoc, lemma_set_union_assoc};
use crate::error::Error;
use crate::file::File;
use crate::format::spec_extension;
use crate::record::{json_record, spec_json_record};
use crate::utils::{join_path, spec_join};

verus! {

/// A project's layout: its name, the root directory at `base/project`,
/// the directories placed under the root, and the root's own files.
#[derive(Debug)]
pub struct Config {
    /// The project's name.
    pub project: String,
    /// The root directory of the layout.
    pub root: Directory,
    /// The directories placed under the root.
    pub dirs: Vec<Directory>,
    /// The files placed directly under the root.
    pub files: Vec<File>,
}

impl Config {
    /// A fresh layout with no project, no directories and no files.
    pub fn new() -> (r: Config)
        ensures
            r.project@ == Seq::<char>::empty(),
            r.root.path@ == Seq::<char>::empty(),
            r.dirs@.len() == 0,
            r.files@.len() == 0,
    {
        Config {
            project: String::new(),
            root: Directory::new(),
            dirs: Vec::new(),
            files: Vec::new(),
        }
    }

    /// Chooses the project: the root directory is placed at
    /// `base/project`.
    pub fn project(self, project: &str, base: &str) -> (r: Config)
        ensures
            r.project@ == project@,
            r.root.path@ == spec_join(base@, project@),
            r.dirs == self.dirs,
            r.files == self.files,
    {
        let root = Directory::new().name(project).parent(base);
        Config { project: project.to_owned(), root, ..self }
    }

    /// Places `dir` under the root: the directory's own path is derived
    /// from the root, and each of its direct files is placed under the
    /// directory in turn, by its extended name. Directories nested deeper
    /// keep the paths they were built with.
    pub fn dir(self, dir: Directory) -> (r: Config)
        ensures
            r.project == self.project,
            r.root == self.root,
            r.files == self.files,
            r.dirs@.len() == self.dirs@.len() + 1,
            forall|i: int| 0 <= i < self.dirs@.len() ==> r.dirs@[i] == self.dirs@[i],
            r.dirs@.last().name == dir.name,
            r.dirs@.last().path@ == spec_join(self.root.path@, dir.name@),
            r.dirs@.last().recursive == dir.recursive,
            r.dirs@.last().dirs == dir.dirs,
            r.dirs@.last().files@.len() == dir.files@.len(),
            forall|k: int|
                0 <= k < dir.files@.len() ==> {
                    &&& (#[trigger] r.dirs@.last().files@[k]).name == dir.files@[k].name
                    &&& r.dirs@.last().files@[k].content == dir.files@[k].content
                    &&& r.dirs@.last().files@[k].format == dir.files@[k].format
                    &&& r.dirs@.last().files@[k].path@ == spec_join(
                        spec_join(self.root.path@, dir.name@),
                        dir.files@[k].name@ + spec_extension(dir.files@[k].format),
                    )
                },
    {
        let placed = dir.parent(self.root.path.as_str());
        let Directory { name, path, recursive, dirs: sub, files: mut old_files } = placed;
        let ghost fs0 = old_files@;
        let mut new_files: Vec<File> = Vec::new();
        while old_files.len() > 0
            invariant
                old_files@ =~= fs0.skip(new_files@.len() as int),
                new_files@.len() <= fs0.len(),
                path@ == spec_join(self.root.path@, name@),
                forall|k: int|
                    0 <= k < new_files@.len() ==> {
                        &&& (#[trigger] new_files@[k]).name == fs0[k].name
                        &&& new_files@[k].content == fs0[k].content
                        &&& new_files@[k].format == fs0[k].format
                        &&& new_files@[k].path@ == spec_join(
                            path@,
                            fs0[k].name@ + spec_extension(fs0[k].format),
                        )
                    },
            decreases old_files@.len(),
        {
            let f = old_files.remove(0);
            proof {
                assert(f == fs0[new_files@.len() as int]);
            }
            let f = f.parent(path.as_str());
            new_files.push(f);
            proof {
                assert(old_files@ =~= fs0.skip(new_files@.len() as int));
            }
        }
        let placed = Directory { name, path, recursive, dirs: sub, files: new_files };
        let Config { project, root, mut dirs, files } = self;
        dirs.push(placed);
        Config { project, root, dirs, files }
    }

    /// Places `file` directly under the root, by its extended name.
    pub fn file(self, file: File) -> (r: Config)
        ensures
            r.project == self.project,
            r.root == self.root,
            r.dirs == self.dirs,
            r.files@.len() == self.files@.len() + 1,
            forall|i: int| 0 <= i < self.files@.len() ==> r.files@[i] == self.files@[i],
            r.files@.last().name == file.name,
            r.files@.last().path@ == spec_join(
                self.root.path@,
                file.name@ + spec_extension(file.format),
            ),
            r.files@.last().format == file.format,
            r.files@.last().content == file.content,
    {
        let placed = file.parent(self.root.path.as_str());
        let Config { project, root, dirs, mut files } = self;
        files.push(placed);
        Config { project, root, dirs, files }
    }

    /// Materializes the layout: the root directory, then each directory's
    /// subtree, then the root's own files, and last the layout's
    /// self-description at the root's `app.json`, which records the
    /// project's name.
    pub fn build(&self, disk: &mut Disk) -> (r: Result<(), Error>)
        ensures
            r is Ok,
            final(disk).dirs() == old(disk).dirs().insert(self.root.path@).union(
                dir_list_dirs(self.dirs@),
            ),
            final(disk).files() == old(disk).files().union_prefer_right(
                dir_list_files(self.dirs@),
            ).union_prefer_right(file_list_files(self.files@)).insert(
                spec_join(self.root.path@, "app.json"@),
                spec_json_record("project"@, self.project@),
            ),
    {
        let ghost dirs0 = disk.dirs();
        let ghost files0 = disk.files();
        if !disk.has_dir(self.root.path.as_str()) {
            disk.mkdir(self.root.path.as_str());
        }
        proof {
            assert(disk.dirs() =~= dirs0.insert(self.root.path@));
        }
        let ghost dirs1 = disk.dirs();
        let mut i: usize = 0;
        proof {
            assert(self.dirs@.take(0) =~= Seq::<Directory>::empty());
        }
        while i < self.dirs.len()
            invariant
                i <= self.dirs@.len(),
                disk.dirs() == dirs1.union(dir_list_dirs(self.dirs@.take(i as int))),
                disk.files() == files0.union_prefer_right(
                    dir_list_files(self.dirs@.take(i as int)),
                ),
                dirs1 == dirs0.insert(self.root.path@),
            decreases self.dirs@.len() - i,
        {
            let _ = self.dirs[i].build(disk);
            proof {
                lemma_dir_list_take(self.dirs@, i as int);
                lemma_set_union_assoc(
                    dirs1,
                    dir_list_dirs(self.dirs@.take(i as int)),
                    dir_dirs(self.dirs@[i as int]),
                );
                lemma_map_override_assoc(
                    files0,
                    dir_list_files(self.dirs@.take(i as int)),
                    dir_files(self.dirs@[i as int]),
                );
            }
            i = i + 1;
        }
        proof {
            assert(self.dirs@.take(self.dirs@.len() as int) =~= self.dirs@);
        }
        let ghost files1 = disk.files();
        let mut j: usize = 0;
        proof {
            assert(self.files@.take(0) =~= Seq::<File>::empty());
        }
        while j < self.files.len()
            invariant
                j <= self.files@.len(),
                disk.dirs() == dirs1.union(dir_list_dirs(self.dirs@)),
                disk.files() == files1.union_prefer_right(
                    file_list_files(self.files@.take(j as int)),
                ),
                files1 == files0.union_prefer_right(dir_list_files(self.dirs@)),
            decreases self.files@.len() - j,
        {
            let _ = self.files[j].write(disk);
            proof {
                lemma_file_list_take(self.files@, j as int);
                assert(files1.union_prefer_right(
                    file_list_files(self.files@.take(j as int)),
                ).insert(self.files@[j as int].path@, self.files@[j as int].content@)
                    =~= files1.union_prefer_right(file_list_files(self.files@.take(j + 1))));
            }
            j = j + 1;
        }
        proof {
            assert(self.files@.take(self.files@.len() as int) =~= self.files@);
            assert(disk.dirs() =~= dirs0.insert(self.root.path@).union(
                dir_list_dirs(self.dirs@),
            ));
        }
        let app = join_path(self.root.path.as_str(), "app.json");
        let rec = json_record("project", self.project.as_str());
        disk.write_file(app.as_str(), rec.as_str());
        Ok(())
    }

    /// Rebuilds the layout: the same effect as [`Config::build`].
    pub fn update(&self, disk: &mut Disk) -> (r: Result<(), Error>)
        ensures
            r is Ok,
            final(disk).dirs() == old(disk).dirs().insert(self.root.path@).union(
                dir_list_dirs(self.dirs@),
            ),
            final(disk).files() == old(disk).files().union_prefer_right(
                dir_list_files(self.dirs@),
            ).union_prefer_right(file_list_files(self.files@)).insert(
                spec_join(self.root.path@, "app.json"@),
                spec_json_record("project"@, self.project@),
            ),
    {
        self.build(disk)
    }

    /// The text of the layout's `app.json` under the root, where any
    /// stands.
    pub fn current(&self, disk: &Disk) -> (r: Option<String>)
        ensures
            match r {
                Some(s) => disk.files().dom().contains(spec_join(self.root.path@, "app.json"@))
                    && s@ == disk.files()[spec_join(self.root.path@, "app.json"@)],
                None => !disk.files().dom().contains(spec_join(self.root.path@, "app.json"@)),
            },
    {
        let p = join_path(self.root.path.as_str(), "app.json");
        disk.read(p.as_str())
    }
}

} // verus!
