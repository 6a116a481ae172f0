//! String helpers shared by the whole library: equality and containment
//! checks with exact specifications, path joining, and the sanitization of
//! names that must be a single normal path component.

use vstd::prelude::*;

use crate::error::Error;

verus! {

/// The file types the keyed store can address, each a file-name extension.
#[derive(Debug, Clone, Copy, PartialEq, Eq, Structural)]
pub enum FileType {
    /// Raw text, no extension.
    Plain,
    /// TOML, extension `toml`.
    Toml,
    /// JSON, extension `json`.
    Json,
    /// RON, extension `ron`.
    Ron,
}

/// The extension text (without the dot) of `t`; empty for plain files.
pub open spec fn spec_file_type_text(t: FileType) -> Seq<char> {
    match t {
        FileType::Plain => ""@,
        FileType::Toml => "toml"@,
        FileType::Json => "json"@,
        FileType::Ron => "ron"@,
    }
}

impl FileType {
    /// The extension this file type appends to a key, without the dot;
    /// empty for plain files.
    pub fn as_str(&self) -> (r: &'static str)
        ensures
            r@ == spec_file_type_text(*self),
    {
        match self {
            FileType::Plain => "",
            FileType::Toml => "toml",
            FileType::Json => "json",
            FileType::Ron => "ron",
        }
    }
}

/// Whether two string slices hold the same characters.
pub fn str_eq(a: &str, b: &str) -> (r: bool)
    ensures
        r == (a@ == b@),
{
    let a_len = a.unicode_len();
    let b_len = b.unicode_len();
    if a_len != b_len {
        return false;
    }
    let mut i: usize = 0;
    while i < a_len
        invariant
            a_len == a@.len(),
            a_len == b@.len(),
            i <= a_len,
            forall|j: int| 0 <= j < i ==> a@[j] == b@[j],
        decreases a_len - i,
    {
        if a.get_char(i) != b.get_char(i) {
            return false;
        }
        i = i + 1;
    }
    proof {
        assert(a@ =~= b@);
    }
    true
}

/// Whether some entry of `v` holds the characters `p`.
pub open spec fn seq_has_str(v: Seq<String>, p: Seq<char>) -> bool {
    exists|k: int| 0 <= k < v.len() && (#[trigger] v[k])@ == p
}

/// Whether no two entries of `v` hold the same characters.
pub open spec fn distinct_strs(v: Seq<String>) -> bool {
    forall|k: int, l: int| 0 <= k < l < v.len() ==> (#[trigger] v[k])@ != (#[trigger] v[l])@
}

/// Whether some entry of `v` holds the same characters as `s`.
pub fn vec_contains_str(v: &Vec<String>, s: &str) -> (r: bool)
    ensures
        r == seq_has_str(v@, s@),
{
    let mut i: usize = 0;
    while i < v.len()
        invariant
            i <= v@.len(),
            forall|j: int| 0 <= j < i ==> (#[trigger] v@[j])@ != s@,
        decreases v@.len() - i,
    {
        if str_eq(v[i].as_str(), s) {
            return true;
        }
        i = i + 1;
    }
    false
}

/// The path that `name` resolves to under `base`: `base` itself when `name`
/// is empty, else `base` with a separator and `name` appended.
pub open spec fn spec_join(base: Seq<char>, name: Seq<char>) -> Seq<char> {
    if name.len() == 0 {
        base
    } else {
        base + "/"@ + name
    }
}

/// Joins `name` onto `base` with a path separator; an empty `name` resolves
/// to `base` itself.
pub fn join_path(base: &str, name: &str) -> (r: String)
    ensures
        r@ == spec_join(base@, name@),
{
    if name.unicode_len() == 0 {
        base.to_owned()
    } else {
        let mut out = base.to_owned();
        out.append("/");
        out.append(name);
        out
    }
}

/// Whether `needle` occurs in `hay` starting at position `i`.
pub open spec fn spec_matches_at(hay: Seq<char>, needle: Seq<char>, i: int) -> bool {
    0 <= i && i + needle.len() <= hay.len() && hay.subrange(i, i + needle.len()) == needle
}

/// Whether `needle` occurs anywhere in `hay`.
pub open spec fn spec_contains_seq(hay: Seq<char>, needle: Seq<char>) -> bool {
    exists|i: int| spec_matches_at(hay, needle, i)
}

/// Whether `hay` ends with `needle`.
pub open spec fn spec_ends_with(hay: Seq<char>, needle: Seq<char>) -> bool {
    needle.len() <= hay.len() && hay.subrange(
        hay.len() - needle.len(),
        hay.len() as int,
    ) == needle
}

/// Whether `hay` starts with `needle`.
pub open spec fn spec_starts_with(hay: Seq<char>, needle: Seq<char>) -> bool {
    needle.len() <= hay.len() && hay.subrange(0, needle.len() as int) == needle
}

fn matches_at(hay: &str, needle: &str, i: usize) -> (b: bool)
    requires
        i + needle@.len() <= hay@.len(),
    ensures
        b == spec_matches_at(hay@, needle@, i as int),
{
    let h_len = hay.unicode_len();
    let n_len = needle.unicode_len();
    let mut j: usize = 0;
    while j < n_len
        invariant
            h_len == hay@.len(),
            n_len == needle@.len(),
            i + n_len <= hay@.len(),
            j <= n_len,
            forall|k: int| 0 <= k < j ==> hay@[i + k] == needle@[k],
        decreases n_len - j,
    {
        if hay.get_char(i + j) != needle.get_char(j) {
            proof {
                assert(hay@.subrange(i as int, i + needle@.len())[j as int] == hay@[i + j]);
            }
            return false;
        }
        j = j + 1;
    }
    proof {
        assert(hay@.subrange(i as int, i + needle@.len()) =~= needle@);
    }
    true
}

/// Whether the characters of `needle` occur anywhere in `hay`.
pub fn str_contains(hay: &str, needle: &str) -> (b: bool)
    ensures
        b == spec_contains_seq(hay@, needle@),
{
    let h_len = hay.unicode_len();
    let n_len = needle.unicode_len();
    if n_len > h_len {
        return false;
    }
    if n_len == 0 {
        proof {
            assert(hay@.subrange(0, 0) =~= needle@);
            assert(spec_matches_at(hay@, needle@, 0));
        }
        return true;
    }
    let mut i: usize = 0;
    while h_len - i >= n_len
        invariant
            h_len == hay@.len(),
            n_len == needle@.len(),
            0 < n_len <= h_len,
            i <= h_len,
            forall|k: int| 0 <= k < i ==> !spec_matches_at(hay@, needle@, k),
        decreases h_len - i,
    {
        if matches_at(hay, needle, i) {
            return true;
        }
        i = i + 1;
    }
    false
}

/// Whether `hay` ends with the characters of `needle`.
pub fn str_ends_with(hay: &str, needle: &str) -> (b: bool)
    ensures
        b == spec_ends_with(hay@, needle@),
{
    let h_len = hay.unicode_len();
    let n_len = needle.unicode_len();
    if n_len > h_len {
        return false;
    }
    matches_at(hay, needle, h_len - n_len)
}

/// Whether `hay` starts with the characters of `needle`.
pub fn str_starts_with(hay: &str, needle: &str) -> (b: bool)
    ensures
        b == spec_starts_with(hay@, needle@),
{
    let h_len = hay.unicode_len();
    let n_len = needle.unicode_len();
    if n_len > h_len {
        return false;
    }
    matches_at(hay, needle, 0)
}

/// The part of `p` after its last path separator; `p` itself where it has
/// none.
pub open spec fn spec_basename(p: Seq<char>) -> Seq<char> {
    if exists|k: int| 0 <= k < p.len() && p[k] == '/' {
        let k = choose|k: int|
            0 <= k < p.len() && p[k] == '/' && (forall|j: int| k < j < p.len() ==> p[j] != '/');
        p.subrange(k + 1, p.len() as int)
    } else {
        p
    }
}

/// The file name at the end of the path `p`: everything after the last
/// separator.
pub fn basename(p: &str) -> (r: String)
    ensures
        r@ == spec_basename(p@),
{
    let len = p.unicode_len();
    let mut i: usize = len;
    while i > 0
        invariant
            len == p@.len(),
            i <= len,
            forall|j: int| i <= j < len ==> p@[j] != '/',
        decreases i,
    {
        if p.get_char(i - 1) == '/' {
            let r = p.substring_char(i, len).to_owned();
            proof {
                let k0 = i - 1;
                assert(0 <= k0 < p@.len() && p@[k0] == '/' && (forall|j: int|
                    k0 < j < p@.len() ==> p@[j] != '/'));
                let k = choose|k: int|
                    0 <= k < p@.len() && p@[k] == '/' && (forall|j: int|
                        k < j < p@.len() ==> p@[j] != '/');
                assert(k == k0) by {
                    if k < k0 {
                        assert(p@[k0] == '/');
                    }
                    if k > k0 {
                        assert(p@[k] != '/');
                    }
                }
            }
            return r;
        }
        i = i - 1;
    }
    proof {
        assert(!(exists|k: int| 0 <= k < p@.len() && p@[k] == '/'));
    }
    p.to_owned()
}

/// The character of the decimal digit `d`.
pub open spec fn spec_digit(d: nat) -> char {
    if d == 0 {
        '0'
    } else if d == 1 {
        '1'
    } else if d == 2 {
        '2'
    } else if d == 3 {
        '3'
    } else if d == 4 {
        '4'
    } else if d == 5 {
        '5'
    } else if d == 6 {
        '6'
    } else if d == 7 {
        '7'
    } else if d == 8 {
        '8'
    } else {
        '9'
    }
}

/// The decimal digits of `n`, most significant first, without leading
/// zeros.
pub open spec fn spec_u64_text(n: nat) -> Seq<char>
    decreases n,
{
    if n < 10 {
        seq![spec_digit(n)]
    } else {
        spec_u64_text(n / 10) + seq![spec_digit(n % 10)]
    }
}

fn digit_str(d: u64) -> (r: &'static str)
    requires
        d < 10,
    ensures
        r@ == seq![spec_digit(d as nat)],
{
    proof {
        reveal_strlit("0");
        reveal_strlit("1");
        reveal_strlit("2");
        reveal_strlit("3");
        reveal_strlit("4");
        reveal_strlit("5");
        reveal_strlit("6");
        reveal_strlit("7");
        reveal_strlit("8");
        reveal_strlit("9");
    }
    let r = if d == 0 {
        "0"
    } else if d == 1 {
        "1"
    } else if d == 2 {
        "2"
    } else if d == 3 {
        "3"
    } else if d == 4 {
        "4"
    } else if d == 5 {
        "5"
    } else if d == 6 {
        "6"
    } else if d == 7 {
        "7"
    } else if d == 8 {
        "8"
    } else {
        "9"
    };
    proof {
        assert(r@ =~= seq![spec_digit(d as nat)]);
    }
    r
}

/// Renders `n` in decimal.
pub fn u64_text(n: u64) -> (r: String)
    ensures
        r@ == spec_u64_text(n as nat),
    decreases n,
{
    if n < 10 {
        digit_str(n).to_owned()
    } else {
        let mut s = u64_text(n / 10);
        s.append(digit_str(n % 10));
        s
    }
}

/// Whether `name` is a single normal path component: non-empty, not `.` or
/// `..`, and free of path separators.
pub open spec fn spec_valid_name(name: Seq<char>) -> bool {
    &&& name.len() > 0
    &&& name != "."@
    &&& name != ".."@
    &&& forall|i: int| 0 <= i < name.len() ==> name[i] != '/'
}

/// Checks that `name` can stand as one relative path component, and hands
/// it back as an owned string. Returns `Error::InvalidName` exactly when
/// `name` is empty, `.`, `..`, or holds a path separator.
pub fn sanitize_name(name: &str) -> (r: Result<String, Error>)
    ensures
        match r {
            Ok(s) => spec_valid_name(name@) && s@ == name@,
            Err(e) => !spec_valid_name(name@) && (e matches Error::InvalidName(s)
                && s@ == name@),
        },
{
    proof {
        reveal_strlit(".");
        reveal_strlit("..");
    }
    let len = name.unicode_len();
    if len == 0 {
        return Err(Error::InvalidName(name.to_owned()));
    }
    if len == 1 && name.get_char(0) == '.' {
        proof {
            assert(name@ =~= "."@);
        }
        return Err(Error::InvalidName(name.to_owned()));
    }
    if len == 2 && name.get_char(0) == '.' && name.get_char(1) == '.' {
        proof {
            assert(name@ =~= ".."@);
        }
        return Err(Error::InvalidName(name.to_owned()));
    }
    let mut i: usize = 0;
    while i < len
        invariant
            len == name@.len(),
            i <= len,
            forall|j: int| 0 <= j < i ==> name@[j] != '/',
        decreases len - i,
    {
        if name.get_char(i) == '/' {
            return Err(Error::InvalidName(name.to_owned()));
        }
        i = i + 1;
    }
    proof {
        assert(name@ != "."@) by {
            if name@ == "."@ {
                assert(name@.len() == 1);
                assert(name@[0] == '.');
            }
        }
        assert(name@ != ".."@) by {
            if name@ == ".."@ {
                assert(name@.len() == 2);
            }
        }
    }
    Ok(name.to_owned())
}

} // verus!
