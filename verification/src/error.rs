//! The error taxonomy of the library. Failures coming from the codec crates
//! are carried as their rendered message, so every variant is a plain value.

use vstd::prelude::*;

verus! {

/// Everything a library operation can fail with.
#[derive(Debug, Clone, PartialEq, Eq)]
pub enum Error {
    /// The given string is not a single normal path component.
    InvalidName(String),
    /// A write to a file could not be completed.
    Write(String),
    /// A filesystem operation failed.
    Io(String),
    /// The platform offers no base configuration directory.
    NoConfigDirectory,
    /// Reading the file behind a key failed; carries the key and the cause.
    GetKey(String, String),
    /// A RON document could not be parsed or produced.
    Ron(String),
    /// A JSON document could not be parsed or produced.
    Json(String),
    /// A value could not be serialized as TOML.
    TomlSerialize(String),
    /// A TOML document could not be parsed.
    TomlDeserialize(String),
    /// A registry search that had to name exactly one file found none.
    NotFound(String),
    /// A registry search that had to name exactly one file found several.
    Ambiguous(String),
    /// Any other failure, described in words.
    Generic(String),
}

impl From<String> for Error {
    fn from(f: String) -> (r: Self) {
        Error::Generic(f)
    }
}

impl vstd::std_specs::convert::FromSpecImpl<String> for Error {
    open spec fn obeys_from_spec() -> bool {
        true
    }

    open spec fn from_spec(f: String) -> Self {
        Error::Generic(f)
    }
}

} // verus!
