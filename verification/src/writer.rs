//! A small options record, a trait for things that can write themselves
//! onto a [`Disk`], and a field accessor over the record by name.

use vstd::prelude::*;

use crate::disk::Disk;
use crate::error::Error;
use crate::record::{record_line, spec_record_line};
use crate::utils::str_eq;

verus! {

/// Something that can persist itself at a path on a disk.
pub trait Writer {
    /// The record this value persists.
    spec fn record_text(&self) -> Seq<char>;

    /// Writes this value's record at `path`, replacing whatever stood
    /// there; the rest of the disk is untouched.
    fn write(&self, disk: &mut Disk, path: &str) -> (r: Result<(), Error>)
        ensures
            r is Ok,
            final(disk).files() == old(disk).files().insert(path@, self.record_text()),
            final(disk).dirs() == old(disk).dirs(),
    ;
}

/// A tiny options record: a name and a color switch.
#[derive(Debug, Clone, PartialEq)]
pub struct Options {
    /// The configured name.
    pub name: String,
    /// Whether color output is wanted.
    pub color: bool,
}

/// The text of a boolean option.
pub open spec fn spec_bool_text(b: bool) -> Seq<char> {
    if b {
        "true"@
    } else {
        "false"@
    }
}

impl Writer for Options {
    /// The record: the name (escaped) and the color switch, one line each.
    open spec fn record_text(&self) -> Seq<char> {
        spec_record_line("name"@, self.name@) + spec_record_line(
            "color"@,
            spec_bool_text(self.color),
        )
    }

    fn write(&self, disk: &mut Disk, path: &str) -> (r: Result<(), Error>) {
        let mut rec = record_line("name", self.name.as_str());
        let color = if self.color {
            "true"
        } else {
            "false"
        };
        rec.append(record_line("color", color).as_str());
        proof {
            assert(rec@ == self.record_text());
        }
        disk.write_file(path, rec.as_str());
        Ok(())
    }
}

/// The value of the field called `field`, rendered as text: the name for
/// `name`, the color switch for `color`, and nothing for any other name.
pub fn get(options: &Options, field: &str) -> (r: Option<String>)
    ensures
        field@ == "name"@ ==> (r matches Some(s) && s@ == options.name@),
        field@ == "color"@ ==> (r matches Some(s) && s@ == spec_bool_text(options.color)),
        field@ != "name"@ && field@ != "color"@ ==> r is None,
{
    proof {
        reveal_strlit("name");
        reveal_strlit("color");
        assert("name"@.len() == 4);
        assert("color"@.len() == 5);
        assert("name"@ != "color"@);
    }
    if str_eq(field, "name") {
        Some(options.name.clone())
    } else if str_eq(field, "color") {
        let s = if options.color {
            "true".to_owned()
        } else {
            "false".to_owned()
        };
        proof {
            assert(s@ == spec_bool_text(options.color));
        }
        Some(s)
    } else {
        None
    }
}

} // verus!
