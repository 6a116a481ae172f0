//! A single described file: a name, a derived path, a format, and content
//! held as text, with a writer that puts the content on a [`Disk`].

use vstd::prelude::*;

use crate::codec;
use crate::codec::{spec_json_render, spec_toml_render};
use crate::disk::Disk;
use crate::error::Error;
use crate::format::{spec_extension, FileFormat};
use crate::utils::{join_path, spec_join};

verus! {

/// One described file, not yet (or already) on disk.
#[derive(Debug, Clone, PartialEq)]
pub struct File {
    /// The file's name, without the format's extension.
    pub name: String,
    /// The file's absolute path, once a parent was chosen.
    pub path: String,
    /// The format the content is rendered in.
    pub format: FileFormat,
    /// The content, as text in `format`.
    pub content: String,
}

impl File {
    /// A file named `name`, in TOML format, with no path and no content.
    pub fn new(name: &str) -> (r: File)
        ensures
            r.name@ == name@,
            r.path@ == Seq::<char>::empty(),
            r.format == FileFormat::TOML,
            r.content@ == Seq::<char>::empty(),
    {
        File {
            name: name.to_owned(),
            path: String::new(),
            format: FileFormat::TOML,
            content: String::new(),
        }
    }

    /// Renames the file.
    pub fn name(self, name: &str) -> (r: File)
        ensures
            r.name@ == name@,
            r.path == self.path,
            r.format == self.format,
            r.content == self.content,
    {
        File { name: name.to_owned(), ..self }
    }

    /// The file's name with its format's extension appended.
    pub fn get_name(&self) -> (r: String)
        ensures
            r@ == self.name@ + spec_extension(self.format),
    {
        self.format.ext(self.name.as_str())
    }

    /// Chooses the file's format.
    pub fn set_format(self, format: FileFormat) -> (r: File)
        ensures
            r == (File { format, ..self }),
    {
        File { format, ..self }
    }

    /// Chooses the file's format.
    pub fn format(self, format: FileFormat) -> (r: File)
        ensures
            r == (File { format, ..self }),
    {
        File { format, ..self }
    }

    /// Places the file under `path`: its own path becomes `path` joined
    /// with its bare name.
    pub fn set_path(self, path: &str) -> (r: File)
        ensures
            r.name == self.name,
            r.path@ == spec_join(path@, self.name@),
            r.format == self.format,
            r.content == self.content,
    {
        let path = join_path(path, self.name.as_str());
        File { path, ..self }
    }

    /// Places the file under `path` by its extended name: its own path
    /// becomes `path` joined with the name and extension.
    pub fn parent(self, path: &str) -> (r: File)
        ensures
            r.name == self.name,
            r.path@ == spec_join(path@, self.name@ + spec_extension(self.format)),
            r.format == self.format,
            r.content == self.content,
    {
        let ext_name = self.get_name();
        let path = join_path(path, ext_name.as_str());
        File { path, ..self }
    }

    /// Places the file under `path` by its extended name.
    pub fn path(self, path: &str) -> (r: File)
        ensures
            r.name == self.name,
            r.path@ == spec_join(path@, self.name@ + spec_extension(self.format)),
            r.format == self.format,
            r.content == self.content,
    {
        self.parent(path)
    }

    /// The text currently on disk at the file's path, where any stands.
    pub fn current(&self, disk: &Disk) -> (r: Option<String>)
        ensures
            match r {
                Some(s) => disk.files().dom().contains(self.path@) && s@ == disk.files()[self.path@],
                None => !disk.files().dom().contains(self.path@),
            },
    {
        disk.read(self.path.as_str())
    }

    /// Renders `value` in the file's format and makes it the content:
    /// exactly the text the format's serializer gives the value. A plain
    /// file takes no typed value: its content is text, set with
    /// [`File::set_text`]; handing one here is rejected rather than
    /// silently dropping the value.
    pub fn set_content(self, value: &serde_json::Value) -> (r: Result<File, Error>)
        ensures
            ({
                let rendered = match self.format {
                    FileFormat::TOML => spec_toml_render(*value),
                    FileFormat::JSON => spec_json_render(*value),
                    FileFormat::Plain => None,
                };
                &&& (r is Ok <==> self.format != FileFormat::Plain && rendered is Some)
                &&& match r {
                    Ok(f) => f.name == self.name && f.path == self.path && f.format == self.format
                        && (rendered matches Some(t) && f.content@ == t),
                    Err(e) => match self.format {
                        FileFormat::Plain => e matches Error::Generic(_),
                        FileFormat::TOML => e matches Error::TomlSerialize(_),
                        FileFormat::JSON => e matches Error::Json(_),
                    },
                }
            }),
    {
        let rendered: Result<String, Error> = match self.format {
            FileFormat::TOML => codec::toml_to_string_pretty(value),
            FileFormat::JSON => codec::json_to_string_pretty(value),
            FileFormat::Plain => Err(
                Error::Generic("a plain file's content is text, not a typed value".to_owned()),
            ),
        };
        match rendered {
            Ok(content) => Ok(File { content, ..self }),
            Err(e) => Err(e),
        }
    }

    /// Renders `value` in the file's format and makes it the content.
    pub fn data(self, value: &serde_json::Value) -> (r: Result<File, Error>)
        ensures
            ({
                let rendered = match self.format {
                    FileFormat::TOML => spec_toml_render(*value),
                    FileFormat::JSON => spec_json_render(*value),
                    FileFormat::Plain => None,
                };
                &&& (r is Ok <==> self.format != FileFormat::Plain && rendered is Some)
                &&& match r {
                    Ok(f) => f.name == self.name && f.path == self.path && f.format == self.format
                        && (rendered matches Some(t) && f.content@ == t),
                    Err(e) => match self.format {
                        FileFormat::Plain => e matches Error::Generic(_),
                        FileFormat::TOML => e matches Error::TomlSerialize(_),
                        FileFormat::JSON => e matches Error::Json(_),
                    },
                }
            }),
    {
        self.set_content(value)
    }

    /// Makes `content` the file's text. Only a plain file takes raw text;
    /// for the structured formats the file is handed back unchanged.
    pub fn set_text(self, content: &str) -> (r: Result<File, Error>)
        ensures
            r is Ok,
            match r {
                Ok(f) => {
                    &&& f.name == self.name
                    &&& f.path == self.path
                    &&& f.format == self.format
                    &&& f.content@ == (if self.format is Plain {
                        content@
                    } else {
                        self.content@
                    })
                },
                Err(_) => false,
            },
    {
        if let FileFormat::Plain = self.format {
            Ok(File { content: content.to_owned(), ..self })
        } else {
            Ok(self)
        }
    }

    /// Writes the content at the file's path, replacing whatever the file
    /// held.
    pub fn write(&self, disk: &mut Disk) -> (r: Result<(), Error>)
        ensures
            r is Ok,
            final(disk).files() == old(disk).files().insert(self.path@, self.content@),
            final(disk).dirs() == old(disk).dirs(),
    {
        disk.write_file(self.path.as_str(), self.content.as_str());
        Ok(())
    }

    /// Writes the content at the file's path; the file is created empty
    /// first, so the effect is the content standing there either way.
    pub fn build(&self, disk: &mut Disk) -> (r: Result<(), Error>)
        ensures
            r is Ok,
            final(disk).files() == old(disk).files().insert(self.path@, self.content@),
            final(disk).dirs() == old(disk).dirs(),
    {
        self.write(disk)
    }
}

} // verus!
