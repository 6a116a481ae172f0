//! The serialization formats a file of the element tree may carry, and the
//! file-name extension each one contributes.

use vstd::prelude::*;

verus! {

/// A serialization scheme for the content of a file node.
#[derive(Debug, Clone, Copy, PartialEq, Eq, Structural)]
pub enum FileFormat {
    /// Raw text, stored byte for byte.
    Plain,
    /// Tom's Obvious, Minimal Language.
    TOML,
    /// JavaScript Object Notation.
    JSON,
}

/// The extension (dot included) that `format` appends to a file name.
pub open spec fn spec_extension(format: FileFormat) -> Seq<char> {
    match format {
        FileFormat::Plain => ""@,
        FileFormat::TOML => ".toml"@,
        FileFormat::JSON => ".json"@,
    }
}

impl FileFormat {
    /// The file-name extension of this format, dot included; empty for
    /// plain text.
    pub fn extension(&self) -> (r: &'static str)
        ensures
            r@ == spec_extension(*self),
    {
        match self {
            FileFormat::Plain => "",
            FileFormat::TOML => ".toml",
            FileFormat::JSON => ".json",
        }
    }

    /// The name `file` with this format's extension appended.
    pub fn ext(&self, file: &str) -> (r: String)
        ensures
            r@ == file@ + spec_extension(*self),
    {
        let mut out = file.to_owned();
        out.append(self.extension());
        out
    }
}

impl Default for FileFormat {
    /// TOML is the format a file carries when none is chosen.
    fn default() -> (r: Self)
        ensures
            r == FileFormat::TOML,
    {
        FileFormat::TOML
    }
}

} // verus!
