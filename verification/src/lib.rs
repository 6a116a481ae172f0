//! Libset describes and materializes a per-application configuration
//! directory tree, and offers a keyed store for reading and writing typed
//! values inside that tree in interchangeable formats (plain text, TOML,
//! JSON, RON).
//!
//! All path computation, name sanitization, tree building and the effect of
//! every read and write are verified against an explicit model of the slice
//! of the filesystem the library touches (the [`disk::Disk`] type). A thin
//! unverified shell binds that model to the real filesystem.

use vstd::prelude::*;

pub mod builder;
pub mod codec;
pub mod config;
pub mod directory;
pub mod disk;
pub mod element;
pub mod error;
pub mod file;
pub mod format;
pub mod layout;
pub mod project;
pub mod record;
pub mod utils;
pub mod writer;

pub use crate::utils::FileType;

use crate::codec::{spec_json_parse, spec_json_render, spec_ron_parse, spec_ron_render,
    spec_toml_parse, spec_toml_render};
use crate::disk::Disk;
use crate::error::Error;
use crate::utils::{
    join_path, sanitize_name, spec_file_type_text, spec_join, spec_u64_text, spec_valid_name,
    u64_text,
};

verus! {

/// The file name a key takes in `t`: the key itself for plain files, else
/// the key with a dot and the format's extension.
pub open spec fn spec_key_name(key: Seq<char>, t: FileType) -> Seq<char> {
    if t is Plain {
        key
    } else {
        key + "."@ + spec_file_type_text(t)
    }
}

/// The absolute path of a key under a store rooted at `root`.
pub open spec fn spec_key_path(root: Seq<char>, key: Seq<char>, t: FileType) -> Seq<char> {
    spec_join(root, spec_key_name(key, t))
}

/// The root directory of a store: `base/name/v<version>`, with the scope
/// appended where one was given.
pub open spec fn spec_store_root(
    base: Seq<char>,
    name: Seq<char>,
    version: nat,
    scope: Option<Seq<char>>,
) -> Seq<char> {
    let versioned = spec_join(spec_join(base, name), "v"@ + spec_u64_text(version));
    match scope {
        Some(s) => spec_join(versioned, s),
        None => versioned,
    }
}

/// A keyed store of settings files under one versioned, optionally scoped
/// application directory.
#[derive(Debug)]
pub struct Config {
    path: String,
}

impl Config {
    /// The directory this store keeps its files under.
    pub closed spec fn root(&self) -> Seq<char> {
        self.path@
    }

    /// Opens the store of the application `name` at `version`, under the
    /// platform base directory `base`, scoped by `scope` where one is
    /// given. The name and the scope must each be a single path component;
    /// the store's directories are created where absent. On rejection the
    /// disk is left untouched.
    pub fn new(name: &str, version: u64, scope: Option<&str>, base: &str, disk: &mut Disk) -> (r:
        Result<Config, Error>)
        ensures
            ({
                let scope_ok = match scope {
                    Some(s) => spec_valid_name(s@),
                    None => true,
                };
                let p1 = spec_join(base@, name@);
                let p2 = spec_join(p1, "v"@ + spec_u64_text(version as nat));
                &&& (r is Ok <==> spec_valid_name(name@) && scope_ok)
                &&& match r {
                    Ok(c) => {
                        &&& c.root() == spec_store_root(
                            base@,
                            name@,
                            version as nat,
                            match scope {
                                Some(s) => Some(s@),
                                None => None,
                            },
                        )
                        &&& final(disk).dirs() == old(disk).dirs().insert(p1).insert(p2).insert(
                            c.root(),
                        )
                        &&& final(disk).files() == old(disk).files()
                    },
                    Err(e) => {
                        &&& e matches Error::InvalidName(_)
                        &&& *final(disk) == *old(disk)
                    },
                }
            }),
    {
        let name_ok = match sanitize_name(name) {
            Ok(n) => n,
            Err(e) => {
                return Err(e);
            },
        };
        let scope_ok: Option<String> = match scope {
            Some(s) => match sanitize_name(s) {
                Ok(sc) => Some(sc),
                Err(e) => {
                    return Err(e);
                },
            },
            None => None,
        };
        let p1 = join_path(base, name_ok.as_str());
        let mut versioned = String::new();
        versioned.append("v");
        versioned.append(u64_text(version).as_str());
        proof {
            assert(versioned@ =~= "v"@ + spec_u64_text(version as nat));
        }
        let p2 = join_path(p1.as_str(), versioned.as_str());
        disk.mkdir(p1.as_str());
        disk.mkdir(p2.as_str());
        match scope_ok {
            Some(sc) => {
                let p3 = join_path(p2.as_str(), sc.as_str());
                disk.mkdir(p3.as_str());
                Ok(Config { path: p3 })
            },
            None => {
                proof {
                    assert(disk.dirs() =~= old(disk).dirs().insert(p1@).insert(p2@).insert(p2@));
                }
                Ok(Config { path: p2 })
            },
        }
    }

    /// The path that `key` takes in this store for `file_type`. The key
    /// itself must be a single normal path component; anything else is
    /// rejected as an invalid name.
    pub fn path(&self, key: &str, file_type: FileType) -> (r: Result<String, Error>)
        ensures
            r is Ok <==> spec_valid_name(key@),
            match r {
                Ok(p) => p@ == spec_key_path(self.root(), key@, file_type),
                Err(e) => e matches Error::InvalidName(_),
            },
    {
        let key = match sanitize_name(key) {
            Ok(k) => k,
            Err(e) => {
                return Err(e);
            },
        };
        let name: String = if let FileType::Plain = file_type {
            key
        } else {
            let mut n = key;
            n.append(".");
            n.append(file_type.as_str());
            n
        };
        Ok(join_path(self.path.as_str(), name.as_str()))
    }

    /// Whether a plain file is stored under `key`; a key that is not a
    /// single path component has no file.
    pub fn has_plain(&self, key: &str, disk: &Disk) -> (b: bool)
        ensures
            b == (spec_valid_name(key@) && disk.files().dom().contains(
                spec_key_path(self.root(), key@, FileType::Plain),
            )),
    {
        match self.path(key, FileType::Plain) {
            Ok(p) => disk.has_file(p.as_str()),
            Err(_) => false,
        }
    }

    /// Whether a TOML file is stored under `key`.
    pub fn has_toml(&self, key: &str, disk: &Disk) -> (b: bool)
        ensures
            b == (spec_valid_name(key@) && disk.files().dom().contains(
                spec_key_path(self.root(), key@, FileType::Toml),
            )),
    {
        self.has_with(key, FileType::Toml, disk)
    }

    /// Whether a JSON file is stored under `key`.
    pub fn has_json(&self, key: &str, disk: &Disk) -> (b: bool)
        ensures
            b == (spec_valid_name(key@) && disk.files().dom().contains(
                spec_key_path(self.root(), key@, FileType::Json),
            )),
    {
        self.has_with(key, FileType::Json, disk)
    }

    /// Whether a RON file is stored under `key`.
    pub fn has_ron(&self, key: &str, disk: &Disk) -> (b: bool)
        ensures
            b == (spec_valid_name(key@) && disk.files().dom().contains(
                spec_key_path(self.root(), key@, FileType::Ron),
            )),
    {
        self.has_with(key, FileType::Ron, disk)
    }

    fn has_with(&self, key: &str, file_type: FileType, disk: &Disk) -> (b: bool)
        requires
            !(file_type is Plain),
        ensures
            b == (spec_valid_name(key@) && disk.files().dom().contains(
                spec_key_path(self.root(), key@, file_type),
            )),
    {
        match self.path(key, file_type) {
            Ok(p) => disk.has_file(p.as_str()),
            Err(_) => false,
        }
    }

    /// Reads and parses the value stored under `key` in `file_type`: on
    /// success exactly the value the format's parser gives the key's file.
    /// A key that was never written is a `GetKey` error; an unparsable
    /// file is the format's own error. Plain text is read with
    /// [`Config::get_plain`], never through this typed accessor.
    pub fn get(&self, key: &str, file_type: FileType, disk: &Disk) -> (r: Result<
        serde_json::Value,
        Error,
    >)
        requires
            !(file_type is Plain),
        ensures
            ({
                let valid = spec_valid_name(key@);
                let kp = spec_key_path(self.root(), key@, file_type);
                let present = disk.files().dom().contains(kp);
                let parsed = match file_type {
                    FileType::Toml => spec_toml_parse(disk.files()[kp]),
                    FileType::Json => spec_json_parse(disk.files()[kp]),
                    FileType::Ron => spec_ron_parse(disk.files()[kp]),
                    FileType::Plain => None,
                };
                &&& ((r matches Err(e) && e matches Error::InvalidName(_)) <==> !valid)
                &&& (valid && !present ==> (r matches Err(e) && (e matches Error::GetKey(k, _)
                    && k@ == key@)))
                &&& (r is Ok ==> valid && present)
                &&& (valid && present ==> (r is Ok <==> parsed is Some))
                &&& (valid && present ==> (r matches Ok(v) ==> parsed == Some(v)))
                &&& (valid && present ==> (r matches Err(e) ==> match file_type {
                    FileType::Toml => e matches Error::TomlDeserialize(_),
                    FileType::Json => e matches Error::Json(_),
                    FileType::Ron => e matches Error::Ron(_),
                    FileType::Plain => true,
                }))
            }),
    {
        let p = match self.path(key, file_type) {
            Ok(p) => p,
            Err(e) => {
                return Err(e);
            },
        };
        let text = match disk.read(p.as_str()) {
            Some(t) => t,
            None => {
                return Err(Error::GetKey(key.to_owned(), "the key has no file".to_owned()));
            },
        };
        match file_type {
            FileType::Toml => codec::toml_from_str(text.as_str()),
            FileType::Json => codec::json_from_str(text.as_str()),
            FileType::Ron => codec::ron_from_str(text.as_str()),
            FileType::Plain => Err(Error::Generic("plain text is read as text".to_owned())),
        }
    }

    /// Renders `value` in `file_type` and stores it under `key`,
    /// overwriting unconditionally: on success the key's file holds
    /// exactly the text the format's serializer gives the value, and
    /// nothing else changes. On any rejection the disk is left untouched.
    /// Plain text is written with [`Config::set_plain`], never through
    /// this typed accessor.
    pub fn set(&self, key: &str, file_type: FileType, value: &serde_json::Value, disk: &mut Disk)
        -> (r: Result<(), Error>)
        requires
            !(file_type is Plain),
        ensures
            ({
                let valid = spec_valid_name(key@);
                let kp = spec_key_path(self.root(), key@, file_type);
                let rendered = match file_type {
                    FileType::Toml => spec_toml_render(*value),
                    FileType::Json => spec_json_render(*value),
                    FileType::Ron => spec_ron_render(*value),
                    FileType::Plain => None,
                };
                &&& (r is Ok <==> valid && rendered is Some)
                &&& (!valid ==> (r matches Err(e) && e matches Error::InvalidName(_)))
                &&& (r is Err ==> *final(disk) == *old(disk))
                &&& (valid ==> (r matches Err(e) ==> match file_type {
                    FileType::Toml => e matches Error::TomlSerialize(_),
                    FileType::Json => e matches Error::Json(_),
                    FileType::Ron => e matches Error::Ron(_),
                    FileType::Plain => true,
                }))
                &&& (r is Ok ==> (rendered matches Some(t) && final(disk).files() == old(
                    disk,
                ).files().insert(kp, t) && final(disk).dirs() == old(disk).dirs()))
            }),
    {
        let p = match self.path(key, file_type) {
            Ok(p) => p,
            Err(e) => {
                return Err(e);
            },
        };
        let rendered: Result<String, Error> = match file_type {
            FileType::Toml => codec::toml_to_string_pretty(value),
            FileType::Json => codec::json_to_string_pretty(value),
            FileType::Ron => codec::ron_to_string_pretty(value),
            FileType::Plain => Err(Error::Generic("plain text is written as text".to_owned())),
        };
        let text = match rendered {
            Ok(t) => t,
            Err(e) => {
                return Err(e);
            },
        };
        disk.write_file(p.as_str(), text.as_str());
        Ok(())
    }

    /// The text stored under `key` as a plain file, byte for byte; a key
    /// that is not a single path component is invalid, and one that was
    /// never written is a `GetKey` error.
    pub fn get_plain(&self, key: &str, disk: &Disk) -> (r: Result<String, Error>)
        ensures
            ({
                let valid = spec_valid_name(key@);
                let kp = spec_key_path(self.root(), key@, FileType::Plain);
                &&& (!valid ==> (r matches Err(e) && e matches Error::InvalidName(_)))
                &&& (valid ==> match r {
                    Ok(s) => disk.files().dom().contains(kp) && s@ == disk.files()[kp],
                    Err(e) => !disk.files().dom().contains(kp) && (e matches Error::GetKey(k, _)
                        && k@ == key@),
                })
            }),
    {
        let p = match self.path(key, FileType::Plain) {
            Ok(p) => p,
            Err(e) => {
                return Err(e);
            },
        };
        match disk.read(p.as_str()) {
            Some(t) => Ok(t),
            None => Err(Error::GetKey(key.to_owned(), "the key has no file".to_owned())),
        }
    }

    /// Stores `value` under `key` as a plain file, byte for byte,
    /// overwriting unconditionally; a key that is not a single path
    /// component is invalid and the disk is left untouched.
    pub fn set_plain(&self, key: &str, value: &str, disk: &mut Disk) -> (r: Result<(), Error>)
        ensures
            r is Ok <==> spec_valid_name(key@),
            r is Ok ==> final(disk).files() == old(disk).files().insert(
                spec_key_path(self.root(), key@, FileType::Plain),
                value@,
            ) && final(disk).dirs() == old(disk).dirs(),
            r matches Err(e) ==> e matches Error::InvalidName(_) && *final(disk) == *old(disk),
    {
        let p = match self.path(key, FileType::Plain) {
            Ok(p) => p,
            Err(e) => {
                return Err(e);
            },
        };
        disk.write_file(p.as_str(), value);
        Ok(())
    }
}

/// Reading a key back right after writing it hands back exactly the text
/// that was written, whatever the store held before: storing under a key
/// updates the store's file map at the key's path, and a read consults
/// that same entry. For plain files the text is the stored value itself;
/// for the structured formats it is the rendered document, which the
/// format's parser then takes back.
pub proof fn lemma_store_round_trip(
    files: Map<Seq<char>, Seq<char>>,
    root: Seq<char>,
    key: Seq<char>,
    t: FileType,
    text: Seq<char>,
)
    ensures
        files.insert(spec_key_path(root, key, t), text).dom().contains(
            spec_key_path(root, key, t),
        ),
        files.insert(spec_key_path(root, key, t), text)[spec_key_path(root, key, t)] == text,
{
}

/// A key is absent from a fresh store and present right after it is set:
/// the empty file map holds no key's path, and a write puts the key's path
/// into the map's domain whatever it held before.
pub proof fn lemma_has_key(
    files: Map<Seq<char>, Seq<char>>,
    root: Seq<char>,
    key: Seq<char>,
    t: FileType,
    content: Seq<char>,
)
    ensures
        !Map::<Seq<char>, Seq<char>>::empty().dom().contains(spec_key_path(root, key, t)),
        files.insert(spec_key_path(root, key, t), content).dom().contains(
            spec_key_path(root, key, t),
        ),
{
}

/// A scoped store and the unscoped store of the same application and
/// version keep their files apart: their root directories differ.
pub proof fn lemma_scope_distinct(base: Seq<char>, name: Seq<char>, version: nat, scope: Seq<char>)
    requires
        scope.len() > 0,
    ensures
        spec_store_root(base, name, version, Some(scope)) != spec_store_root(
            base,
            name,
            version,
            None,
        ),
{
    reveal_strlit("/");
    assert(spec_store_root(base, name, version, Some(scope)).len() == spec_store_root(
        base,
        name,
        version,
        None,
    ).len() + 1 + scope.len());
}

} // verus!
