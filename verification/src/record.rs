//! The flat records the library writes for itself: one `key = "value"`
//! line per field, with the value escaped so that any text can stand
//! inside a TOML (or JSON) basic string. The escaping is verified, so the
//! text of a record is stated exactly, character for character.

use vstd::prelude::*;

verus! {

/// The character of the hexadecimal digit `d`.
pub open spec fn spec_hex_digit(d: nat) -> char {
    if d == 0 {
        '0'
    } else if d == 1 {
        '1'
    } else if d == 2 {
        '2'
    } else if d == 3 {
        '3'
    } else if d == 4 {
        '4'
    } else if d == 5 {
        '5'
    } else if d == 6 {
        '6'
    } else if d == 7 {
        '7'
    } else if d == 8 {
        '8'
    } else if d == 9 {
        '9'
    } else if d == 10 {
        'A'
    } else if d == 11 {
        'B'
    } else if d == 12 {
        'C'
    } else if d == 13 {
        'D'
    } else if d == 14 {
        'E'
    } else {
        'F'
    }
}

fn hex_digit_str(d: u32) -> (r: &'static str)
    requires
        d < 16,
    ensures
        r@ == seq![spec_hex_digit(d as nat)],
{
    proof {
        reveal_strlit("0");
        reveal_strlit("1");
        reveal_strlit("2");
        reveal_strlit("3");
        reveal_strlit("4");
        reveal_strlit("5");
        reveal_strlit("6");
        reveal_strlit("7");
        reveal_strlit("8");
        reveal_strlit("9");
        reveal_strlit("A");
        reveal_strlit("B");
        reveal_strlit("C");
        reveal_strlit("D");
        reveal_strlit("E");
        reveal_strlit("F");
    }
    let r = if d == 0 {
        "0"
    } else if d == 1 {
        "1"
    } else if d == 2 {
        "2"
    } else if d == 3 {
        "3"
    } else if d == 4 {
        "4"
    } else if d == 5 {
        "5"
    } else if d == 6 {
        "6"
    } else if d == 7 {
        "7"
    } else if d == 8 {
        "8"
    } else if d == 9 {
        "9"
    } else if d == 10 {
        "A"
    } else if d == 11 {
        "B"
    } else if d == 12 {
        "C"
    } else if d == 13 {
        "D"
    } else if d == 14 {
        "E"
    } else {
        "F"
    };
    proof {
        assert(r@ =~= seq![spec_hex_digit(d as nat)]);
    }
    r
}

/// What `c` becomes inside a quoted string: itself, unless it is a quote,
/// a backslash or a control character, which take their escape sequences.
pub open spec fn spec_escape_char(c: char) -> Seq<char> {
    if c == '\\' {
        "\\\\"@
    } else if c == '"' {
        "\\\""@
    } else if c == '\n' {
        "\\n"@
    } else if c == '\r' {
        "\\r"@
    } else if c == '\t' {
        "\\t"@
    } else if (c as u32) < 32 || (c as u32) == 127 {
        "\\u00"@ + seq![
            spec_hex_digit(((c as u32) / 16) as nat),
            spec_hex_digit(((c as u32) % 16) as nat),
        ]
    } else {
        seq![c]
    }
}

/// The characters of `s`, each escaped as a quoted string wants it.
pub open spec fn spec_escape(s: Seq<char>) -> Seq<char>
    decreases s.len(),
{
    if s.len() == 0 {
        Seq::empty()
    } else {
        spec_escape(s.drop_last()) + spec_escape_char(s.last())
    }
}

/// Escapes `s` so it can stand inside a quoted TOML or JSON string.
pub fn escape_text(s: &str) -> (r: String)
    ensures
        r@ == spec_escape(s@),
{
    let len = s.unicode_len();
    let mut out = String::new();
    let mut i: usize = 0;
    while i < len
        invariant
            len == s@.len(),
            i <= len,
            out@ == spec_escape(s@.take(i as int)),
        decreases len - i,
    {
        let c = s.get_char(i);
        if c == '\\' {
            out.append("\\\\");
        } else if c == '"' {
            out.append("\\\"");
        } else if c == '\n' {
            out.append("\\n");
        } else if c == '\r' {
            out.append("\\r");
        } else if c == '\t' {
            out.append("\\t");
        } else if (c as u32) < 32 || (c as u32) == 127 {
            out.append("\\u00");
            out.append(hex_digit_str((c as u32) / 16));
            out.append(hex_digit_str((c as u32) % 16));
        } else {
            let one = s.substring_char(i, i + 1);
            proof {
                assert(one@ =~= seq![s@[i as int]]);
            }
            out.append(one);
        }
        proof {
            assert(s@.take(i + 1).drop_last() =~= s@.take(i as int));
            assert(s@.take(i + 1).last() == s@[i as int]);
            assert(out@ =~= spec_escape(s@.take(i + 1)));
        }
        i = i + 1;
    }
    proof {
        assert(s@.take(len as int) =~= s@);
    }
    out
}

/// One line of a record: the key, an equals sign, and the value quoted
/// with its characters escaped.
pub open spec fn spec_record_line(key: Seq<char>, value: Seq<char>) -> Seq<char> {
    key + " = \""@ + spec_escape(value) + "\"\n"@
}

/// Renders one `key = "value"` line, escaping the value.
pub fn record_line(key: &str, value: &str) -> (r: String)
    ensures
        r@ == spec_record_line(key@, value@),
{
    let mut out = key.to_owned();
    out.append(" = \"");
    out.append(escape_text(value).as_str());
    out.append("\"\n");
    out
}

/// A one-field JSON object: the key and the value quoted, the value's
/// characters escaped.
pub open spec fn spec_json_record(key: Seq<char>, value: Seq<char>) -> Seq<char> {
    "{\""@ + key + "\": \""@ + spec_escape(value) + "\"}"@
}

/// Renders a one-field JSON object, escaping the value.
pub fn json_record(key: &str, value: &str) -> (r: String)
    ensures
        r@ == spec_json_record(key@, value@),
{
    let mut out = "{\"".to_owned();
    out.append(key);
    out.append("\": \"");
    out.append(escape_text(value).as_str());
    out.append("\"}");
    out
}

} // verus!
