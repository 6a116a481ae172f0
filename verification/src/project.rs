//! The project registry: an application's descriptive metadata, persisted
//! as one TOML record in the project's data directory, and a search over
//! the files of that directory.

use vstd::prelude::*;

use crate::codec;
use crate::codec::{spec_field_text, spec_toml_parse};
use crate::disk::Disk;
use crate::error::Error;
use crate::file::File;
use crate::format::{spec_extension, FileFormat};
use crate::record::{record_line, spec_record_line};
use crate::utils::{
    basename, distinct_strs, join_path, spec_basename, spec_contains_seq, spec_ends_with,
    spec_join, spec_starts_with, str_contains, str_ends_with, str_starts_with,
};

verus! {

/// An application's identity and descriptive metadata.
#[derive(Debug, Clone, PartialEq)]
pub struct Project {
    /// The reverse-domain qualifier, such as `com`.
    pub qualifier: String,
    /// The organization behind the application.
    pub organization: String,
    /// The application's name.
    pub application: String,
    /// The application's author.
    pub author: String,
    /// The application's version text.
    pub version: String,
    /// What the application is about.
    pub about: String,
}

/// The record persisted for `p`: its six fields, one line each.
pub open spec fn spec_project_record(p: Project) -> Seq<char> {
    spec_record_line("qualifier"@, p.qualifier@) + spec_record_line(
        "organization"@,
        p.organization@,
    ) + spec_record_line("application"@, p.application@) + spec_record_line("author"@, p.author@)
        + spec_record_line("version"@, p.version@) + spec_record_line("about"@, p.about@)
}

/// The record's file name: `qualifier.organization.application.toml`.
pub open spec fn spec_record_name(
    qualifier: Seq<char>,
    organization: Seq<char>,
    application: Seq<char>,
) -> Seq<char> {
    qualifier + "."@ + organization + "."@ + application + ".toml"@
}

/// The path of the record of `p` under the project directory `base`.
pub open spec fn spec_record_path(p: Project, base: Seq<char>) -> Seq<char> {
    spec_join(base, spec_record_name(p.qualifier@, p.organization@, p.application@))
}

/// Whether the file at `p` is found by a search for `name` under `base`:
/// it lies under the project directory, its file name holds `name`, and it
/// is a TOML or JSON file.
pub open spec fn spec_find_match(p: Seq<char>, name: Seq<char>, base: Seq<char>) -> bool {
    &&& spec_starts_with(p, base + "/"@)
    &&& spec_contains_seq(spec_basename(p), name)
    &&& (spec_ends_with(spec_basename(p), ".toml"@) || spec_ends_with(spec_basename(p), ".json"@))
}

/// Whether the file at `p` answers a search for `name` in `format` under
/// `base`: it lies under the project directory and its file name holds
/// both `name` and the format's extension.
pub open spec fn spec_get_match(
    p: Seq<char>,
    name: Seq<char>,
    format: FileFormat,
    base: Seq<char>,
) -> bool {
    &&& spec_starts_with(p, base + "/"@)
    &&& spec_contains_seq(spec_basename(p), name)
    &&& spec_contains_seq(spec_basename(p), spec_extension(format))
}

/// What the files of the disk become when `files` are added in order under
/// `base`: each lands at its extended name, skipped where a file already
/// stands there.
pub open spec fn spec_add_files(s: Seq<File>, base: Seq<char>, m: Map<Seq<char>, Seq<char>>) -> Map<
    Seq<char>,
    Seq<char>,
>
    decreases s.len(),
{
    if s.len() == 0 {
        m
    } else {
        spec_add_files(s.drop_first(), base, spec_add_one(s.first(), base, m))
    }
}

/// One step of [`spec_add_files`]: the file lands unless its path is taken.
pub open spec fn spec_add_one(f: File, base: Seq<char>, m: Map<Seq<char>, Seq<char>>) -> Map<
    Seq<char>,
    Seq<char>,
> {
    let p = spec_join(base, f.name@ + spec_extension(f.format));
    if m.dom().contains(p) {
        m
    } else {
        m.insert(p, f.content@)
    }
}

impl Project {
    /// A project with the given identity and no metadata yet; its data
    /// directory `base` is recorded on the disk and the record persisted,
    /// its fields escaped so that any text can stand in it.
    pub fn new(
        qualifier: &str,
        organization: &str,
        application: &str,
        base: &str,
        disk: &mut Disk,
    ) -> (r: Project)
        ensures
            r.qualifier@ == qualifier@,
            r.organization@ == organization@,
            r.application@ == application@,
            r.author@ == Seq::<char>::empty(),
            r.version@ == Seq::<char>::empty(),
            r.about@ == Seq::<char>::empty(),
            final(disk).dirs() == old(disk).dirs().insert(base@),
            final(disk).files() == old(disk).files().insert(
                spec_record_path(r, base@),
                spec_project_record(r),
            ),
    {
        let project = Project {
            qualifier: qualifier.to_owned(),
            organization: organization.to_owned(),
            application: application.to_owned(),
            author: String::new(),
            version: String::new(),
            about: String::new(),
        };
        disk.mkdir(base);
        let res = project.update(base, disk);
        proof {
            assert(res is Ok);
        }
        project
    }

    /// Writes the whole record at its fixed path under `base`, replacing
    /// any earlier record; the fields are escaped, so any text can stand
    /// in the record.
    pub fn update(&self, base: &str, disk: &mut Disk) -> (r: Result<(), Error>)
        ensures
            r is Ok,
            final(disk).files() == old(disk).files().insert(
                spec_record_path(*self, base@),
                spec_project_record(*self),
            ),
            final(disk).dirs() == old(disk).dirs(),
    {
        let mut rec = record_line("qualifier", self.qualifier.as_str());
        rec.append(record_line("organization", self.organization.as_str()).as_str());
        rec.append(record_line("application", self.application.as_str()).as_str());
        rec.append(record_line("author", self.author.as_str()).as_str());
        rec.append(record_line("version", self.version.as_str()).as_str());
        rec.append(record_line("about", self.about.as_str()).as_str());
        let path = self.record_path(base);
        proof {
            assert(rec@ == spec_project_record(*self));
        }
        disk.write_file(path.as_str(), rec.as_str());
        Ok(())
    }

    /// The path the record takes under `base`.
    fn record_path(&self, base: &str) -> (r: String)
        ensures
            r@ == spec_record_path(*self, base@),
    {
        let mut name = self.qualifier.clone();
        name.append(".");
        name.append(self.organization.as_str());
        name.append(".");
        name.append(self.application.as_str());
        name.append(".toml");
        join_path(base, name.as_str())
    }

    /// Sets the author and re-persists the whole record under `base`.
    pub fn author(self, author: &str, base: &str, disk: &mut Disk) -> (r: Project)
        ensures
            r.author@ == author@,
            r.qualifier == self.qualifier,
            r.organization == self.organization,
            r.application == self.application,
            r.version == self.version,
            r.about == self.about,
            final(disk).files() == old(disk).files().insert(
                spec_record_path(r, base@),
                spec_project_record(r),
            ),
            final(disk).dirs() == old(disk).dirs(),
    {
        let project = Project { author: author.to_owned(), ..self };
        let res = project.update(base, disk);
        proof {
            assert(res is Ok);
        }
        project
    }

    /// Sets the version text and re-persists the whole record under `base`.
    pub fn version(self, version: &str, base: &str, disk: &mut Disk) -> (r: Project)
        ensures
            r.version@ == version@,
            r.qualifier == self.qualifier,
            r.organization == self.organization,
            r.application == self.application,
            r.author == self.author,
            r.about == self.about,
            final(disk).files() == old(disk).files().insert(
                spec_record_path(r, base@),
                spec_project_record(r),
            ),
            final(disk).dirs() == old(disk).dirs(),
    {
        let project = Project { version: version.to_owned(), ..self };
        let res = project.update(base, disk);
        proof {
            assert(res is Ok);
        }
        project
    }

    /// Sets the description and re-persists the whole record under `base`.
    pub fn about(self, about: &str, base: &str, disk: &mut Disk) -> (r: Project)
        ensures
            r.about@ == about@,
            r.qualifier == self.qualifier,
            r.organization == self.organization,
            r.application == self.application,
            r.author == self.author,
            r.version == self.version,
            final(disk).files() == old(disk).files().insert(
                spec_record_path(r, base@),
                spec_project_record(r),
            ),
            final(disk).dirs() == old(disk).dirs(),
    {
        let project = Project { about: about.to_owned(), ..self };
        let res = project.update(base, disk);
        proof {
            assert(res is Ok);
        }
        project
    }

    /// Reads the record of the given identity back from under `base`. An
    /// absent record is an I/O error; a record that does not parse, or
    /// lacks one of the six fields, is a TOML deserialization error; and
    /// on success the project's fields are exactly the record's.
    pub fn open(
        qualifier: &str,
        organization: &str,
        application: &str,
        base: &str,
        disk: &Disk,
    ) -> (r: Result<Project, Error>)
        ensures
            ({
                let path = spec_join(
                    base@,
                    spec_record_name(qualifier@, organization@, application@),
                );
                let present = disk.files().dom().contains(path);
                &&& (!present ==> (r matches Err(e) && e matches Error::Io(_)))
                &&& (present ==> match spec_toml_parse(disk.files()[path]) {
                    None => r matches Err(e) && e matches Error::TomlDeserialize(_),
                    Some(v) => {
                        let all_there = {
                            &&& spec_field_text(v, "qualifier"@) is Some
                            &&& spec_field_text(v, "organization"@) is Some
                            &&& spec_field_text(v, "application"@) is Some
                            &&& spec_field_text(v, "author"@) is Some
                            &&& spec_field_text(v, "version"@) is Some
                            &&& spec_field_text(v, "about"@) is Some
                        };
                        &&& (r is Ok <==> all_there)
                        &&& (!all_there ==> (r matches Err(e) && e matches
                            Error::TomlDeserialize(_)))
                        &&& (r matches Ok(p) ==> {
                            &&& (spec_field_text(v, "qualifier"@) matches Some(t)
                                && p.qualifier@ == t)
                            &&& (spec_field_text(v, "organization"@) matches Some(t)
                                && p.organization@ == t)
                            &&& (spec_field_text(v, "application"@) matches Some(t)
                                && p.application@ == t)
                            &&& (spec_field_text(v, "author"@) matches Some(t) && p.author@ == t)
                            &&& (spec_field_text(v, "version"@) matches Some(t) && p.version@ == t)
                            &&& (spec_field_text(v, "about"@) matches Some(t) && p.about@ == t)
                        })
                    },
                })
            }),
    {
        let mut name = qualifier.to_owned();
        name.append(".");
        name.append(organization);
        name.append(".");
        name.append(application);
        name.append(".toml");
        let path = join_path(base, name.as_str());
        let text = match disk.read(path.as_str()) {
            Some(text) => text,
            None => {
                return Err(Error::Io("the project record does not exist".to_owned()));
            },
        };
        let value = match codec::toml_from_str(text.as_str()) {
            Ok(value) => value,
            Err(e) => {
                return Err(e);
            },
        };
        let fields = (
            Self::record_field(&value, "qualifier"),
            Self::record_field(&value, "organization"),
            Self::record_field(&value, "application"),
            Self::record_field(&value, "author"),
            Self::record_field(&value, "version"),
            Self::record_field(&value, "about"),
        );
        match fields {
            (Some(q), Some(o), Some(a), Some(author), Some(version), Some(about)) => Ok(
                Project {
                    qualifier: q,
                    organization: o,
                    application: a,
                    author,
                    version,
                    about,
                },
            ),
            _ => Err(Error::TomlDeserialize("the project record lacks a field".to_owned())),
        }
    }

    /// The text under `key` in a parsed record, where it is a string.
    fn record_field(value: &serde_json::Value, key: &str) -> (r: Option<String>)
        ensures
            match r {
                Some(s) => spec_field_text(*value, key@) == Some(s@),
                None => spec_field_text(*value, key@) is None,
            },
    {
        match codec::value_field(value, key) {
            Some(field) => codec::value_str(field),
            None => None,
        }
    }

    /// Removes the project directory `base` with everything in it; what
    /// lies outside is untouched.
    pub fn clear(&self, base: &str, disk: &mut Disk) -> (r: Result<(), Error>)
        ensures
            r is Ok,
            final(disk).dirs() == old(disk).dirs().difference(
                Set::new(|p: Seq<char>| crate::disk::spec_within(base@, p)),
            ),
            final(disk).files() == old(disk).files().remove_keys(
                Set::new(|p: Seq<char>| crate::disk::spec_within(base@, p)),
            ),
    {
        disk.remove_subtree(base);
        Ok(())
    }

    /// Adds `files` to the project directory `base`, in order: each file
    /// lands at its name with the format's extension, and a file whose
    /// path is already taken is left as it stands.
    pub fn add_files(self, files: &Vec<File>, base: &str, disk: &mut Disk) -> (r: Result<
        Project,
        Error,
    >)
        ensures
            r matches Ok(p) && p == self,
            final(disk).files() == spec_add_files(files@, base@, old(disk).files()),
            final(disk).dirs() == old(disk).dirs(),
    {
        let ghost files0 = disk.files();
        let mut i: usize = 0;
        proof {
            assert(files@.skip(0) =~= files@);
        }
        while i < files.len()
            invariant
                i <= files@.len(),
                disk.dirs() == old(disk).dirs(),
                spec_add_files(files@.skip(i as int), base@, disk.files()) == spec_add_files(
                    files@,
                    base@,
                    files0,
                ),
                files0 == old(disk).files(),
            decreases files@.len() - i,
        {
            let ghost before = disk.files();
            let file = &files[i];
            let ext_name = file.get_name();
            let target = join_path(base, ext_name.as_str());
            if !disk.has_file(target.as_str()) {
                disk.write_file(target.as_str(), file.content.as_str());
            }
            proof {
                assert(disk.files() == spec_add_one(files@[i as int], base@, before));
                assert(files@.skip(i as int).drop_first() =~= files@.skip(i + 1));
                assert(files@.skip(i as int).first() == files@[i as int]);
            }
            i = i + 1;
        }
        proof {
            assert(files@.skip(files@.len() as int) =~= Seq::<File>::empty());
        }
        Ok(self)
    }

    /// Every TOML or JSON file of the project directory whose name holds
    /// `name`: each match is handed back once, carrying its name, path,
    /// format and the text it holds on disk.
    pub fn find(&self, name: &str, base: &str, disk: &Disk) -> (r: Result<Vec<File>, Error>)
        ensures
            r is Ok,
            r matches Ok(found) ==> (forall|j: int|
                0 <= j < found@.len() ==> {
                    let p = (#[trigger] found@[j]).path@;
                    &&& disk.files().dom().contains(p)
                    &&& spec_find_match(p, name@, base@)
                    &&& found@[j].name@ == spec_basename(p)
                    &&& found@[j].content@ == disk.files()[p]
                    &&& found@[j].format == (if spec_ends_with(spec_basename(p), ".toml"@) {
                        FileFormat::TOML
                    } else {
                        FileFormat::JSON
                    })
                }),
            r matches Ok(found) ==> (forall|p: Seq<char>|
                disk.files().dom().contains(p) && spec_find_match(p, name@, base@)
                    ==> exists|j: int| 0 <= j < found@.len() && (#[trigger] found@[j]).path@ == p),
            r matches Ok(found) ==> (forall|j: int, k: int|
                #![trigger found@[j], found@[k]]
                0 <= j < k < found@.len() ==> found@[j].path@ != found@[k].path@),
    {
        let mut prefix = base.to_owned();
        prefix.append("/");
        let paths = disk.paths();
        let mut found: Vec<File> = Vec::new();
        let ghost mut src: Seq<int> = Seq::empty();
        let mut i: usize = 0;
        while i < paths.len()
            invariant
                i <= paths@.len(),
                prefix@ == base@ + "/"@,
                forall|k: int| 0 <= k < paths@.len() ==> disk.files().dom().contains(
                    (#[trigger] paths@[k])@,
                ),
                forall|j: int|
                    0 <= j < found@.len() ==> {
                        let p = (#[trigger] found@[j]).path@;
                        &&& disk.files().dom().contains(p)
                        &&& spec_find_match(p, name@, base@)
                        &&& found@[j].name@ == spec_basename(p)
                        &&& found@[j].content@ == disk.files()[p]
                        &&& found@[j].format == (if spec_ends_with(spec_basename(p), ".toml"@) {
                            FileFormat::TOML
                        } else {
                            FileFormat::JSON
                        })
                    },
                forall|k: int|
                    0 <= k < i && spec_find_match((#[trigger] paths@[k])@, name@, base@)
                        ==> exists|j: int|
                        0 <= j < found@.len() && (#[trigger] found@[j]).path@ == paths@[k]@,
                src.len() == found@.len(),
                forall|j: int|
                    #![trigger src[j]]
                    0 <= j < src.len() ==> 0 <= src[j] < i && paths@[src[j]]@ == found@[j].path@,
                forall|j: int, k: int|
                    #![trigger src[j], src[k]]
                    0 <= j < k < src.len() ==> src[j] < src[k],
            decreases paths@.len() - i,
        {
            let ghost found_before = found@;
            let p = &paths[i];
            let bn = basename(p.as_str());
            let is_toml = str_ends_with(bn.as_str(), ".toml");
            let is_json = str_ends_with(bn.as_str(), ".json");
            let matched = str_starts_with(p.as_str(), prefix.as_str()) && str_contains(
                bn.as_str(),
                name,
            ) && (is_toml || is_json);
            proof {
                assert(matched == spec_find_match(paths@[i as int]@, name@, base@));
            }
            if matched {
                let content = match disk.read(p.as_str()) {
                    Some(content) => content,
                    None => {
                        proof {
                            assert(false);
                        }
                        String::new()
                    },
                };
                let format = if is_toml {
                    FileFormat::TOML
                } else {
                    FileFormat::JSON
                };
                let file = File { name: bn, path: p.clone(), format, content };
                found.push(file);
                proof {
                    src = src.push(i as int);
                    assert(found@[found@.len() - 1].path@ == paths@[i as int]@);
                }
            }
            proof {
                assert forall|k: int|
                    0 <= k < i + 1 && spec_find_match((#[trigger] paths@[k])@, name@, base@)
                    implies exists|j: int| 0 <= j < found@.len() && (#[trigger] found@[j]).path@
                    == paths@[k]@ by {
                    if k < i {
                        let j = choose|j: int|
                            0 <= j < found_before.len() && (#[trigger] found_before[j]).path@
                                == paths@[k]@;
                        assert(found@[j].path@ == paths@[k]@);
                    } else {
                        assert(found@[found@.len() - 1].path@ == paths@[k]@);
                    }
                }
            }
            i = i + 1;
        }
        proof {
            assert forall|p: Seq<char>|
                disk.files().dom().contains(p) && spec_find_match(p, name@, base@)
                implies exists|j: int| 0 <= j < found@.len() && (#[trigger] found@[j]).path@
                == p by {
                let k = choose|k: int| 0 <= k < paths@.len() && (#[trigger] paths@[k])@ == p;
                assert(spec_find_match(paths@[k]@, name@, base@));
            }
            assert forall|j: int, k: int|
                #![trigger found@[j], found@[k]]
                0 <= j < k < found@.len() implies found@[j].path@ != found@[k].path@ by {
                assert(paths@[src[j]]@ == found@[j].path@);
                assert(paths@[src[k]]@ == found@[k].path@);
                assert(src[j] < src[k]);
                assert(paths@[src[j]]@ != paths@[src[k]]@);
            }
        }
        Ok(found)
    }

    /// The one file of the project directory whose name holds both `name`
    /// and the extension of `format`. Where none matches the search fails
    /// as not found; where several distinct files match it fails as
    /// ambiguous.
    pub fn get_file(&self, name: &str, format: FileFormat, base: &str, disk: &Disk) -> (r: Result<
        File,
        Error,
    >)
        ensures
            r matches Ok(f) ==> {
                &&& disk.files().dom().contains(f.path@)
                &&& spec_get_match(f.path@, name@, format, base@)
                &&& f.name@ == spec_basename(f.path@)
                &&& f.content@ == disk.files()[f.path@]
                &&& f.format == format
                &&& forall|p: Seq<char>|
                    disk.files().dom().contains(p) && spec_get_match(p, name@, format, base@) ==> p
                        == f.path@
            },
            r matches Err(e) ==> (e matches Error::NotFound(_) || e matches Error::Ambiguous(_)),
            (r matches Err(e) && e matches Error::NotFound(_)) ==> (forall|p: Seq<char>|
                !(disk.files().dom().contains(p) && spec_get_match(p, name@, format, base@))),
            (r matches Err(e) && e matches Error::Ambiguous(_)) ==> (exists|
                p1: Seq<char>,
                p2: Seq<char>,
            |
                disk.files().dom().contains(p1) && disk.files().dom().contains(p2)
                    && spec_get_match(p1, name@, format, base@) && spec_get_match(
                    p2,
                    name@,
                    format,
                    base@,
                ) && p1 != p2),
    {
        let mut prefix = base.to_owned();
        prefix.append("/");
        let ext = format.extension();
        let paths = disk.paths();
        let mut found: Option<File> = None;
        let mut i: usize = 0;
        while i < paths.len()
            invariant
                i <= paths@.len(),
                prefix@ == base@ + "/"@,
                ext@ == spec_extension(format),
                distinct_strs(paths@),
                forall|k: int| 0 <= k < paths@.len() ==> disk.files().dom().contains(
                    (#[trigger] paths@[k])@,
                ),
                match found {
                    Some(f) => {
                        &&& disk.files().dom().contains(f.path@)
                        &&& spec_get_match(f.path@, name@, format, base@)
                        &&& f.name@ == spec_basename(f.path@)
                        &&& f.content@ == disk.files()[f.path@]
                        &&& f.format == format
                        &&& forall|k: int|
                            0 <= k < i && spec_get_match(
                                (#[trigger] paths@[k])@,
                                name@,
                                format,
                                base@,
                            ) ==> paths@[k]@ == f.path@
                        &&& exists|k0: int| 0 <= k0 < i && (#[trigger] paths@[k0])@ == f.path@
                    },
                    None => forall|k: int|
                        0 <= k < i ==> !spec_get_match((#[trigger] paths@[k])@, name@, format, base@),
                },
            decreases paths@.len() - i,
        {
            let p = &paths[i];
            let bn = basename(p.as_str());
            if str_starts_with(p.as_str(), prefix.as_str()) && str_contains(
                bn.as_str(),
                name,
            ) && str_contains(bn.as_str(), ext) {
                if found.is_some() {
                    proof {
                        match found {
                            Some(f) => {
                                let k0 = choose|k0: int|
                                    0 <= k0 < i && (#[trigger] paths@[k0])@ == f.path@;
                                assert(paths@[k0]@ != paths@[i as int]@);
                                assert(disk.files().dom().contains(f.path@));
                                assert(disk.files().dom().contains(paths@[i as int]@));
                                assert(spec_get_match(f.path@, name@, format, base@));
                                assert(spec_get_match(paths@[i as int]@, name@, format, base@));
                            },
                            None => {
                                assert(false);
                            },
                        }
                    }
                    return Err(Error::Ambiguous("several files match the search".to_owned()));
                }
                let content = match disk.read(p.as_str()) {
                    Some(content) => content,
                    None => {
                        proof {
                            assert(false);
                        }
                        String::new()
                    },
                };
                found = Some(File { name: bn, path: p.clone(), format, content });
                proof {
                    assert(paths@[i as int]@ == found.unwrap().path@);
                }
            }
            i = i + 1;
        }
        match found {
            Some(f) => {
                proof {
                    assert forall|p: Seq<char>|
                        disk.files().dom().contains(p) && spec_get_match(p, name@, format, base@)
                        implies p == f.path@ by {
                        let k = choose|k: int|
                            0 <= k < paths@.len() && (#[trigger] paths@[k])@ == p;
                        assert(spec_get_match(paths@[k]@, name@, format, base@));
                    }
                }
                Ok(f)
            },
            None => {
                proof {
                    assert forall|p: Seq<char>|
                        !(disk.files().dom().contains(p) && spec_get_match(
                            p,
                            name@,
                            format,
                            base@,
                        )) by {
                        if disk.files().dom().contains(p) {
                            let k = choose|k: int|
                                0 <= k < paths@.len() && (#[trigger] paths@[k])@ == p;
                            assert(!spec_get_match(paths@[k]@, name@, format, base@));
                        }
                    }
                }
                Err(Error::NotFound("no file matches the search".to_owned()))
            },
        }
    }
}

} // verus!
