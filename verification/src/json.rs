//! JSON's spelling of a string, which is how a refused value is quoted back to the person who sent it.

use vstd::prelude::*;
use crate::text::{chars_of, push_char};

verus! {

/// A lowercase hex digit, for a value below sixteen.
pub open spec fn lower_hex(d: u32) -> char {
    if d < 10 {
        (0x30 + d) as char
    } else {
        (0x61 + d - 10) as char
    }
}

/// How JSON writes one character inside a string, as `serde_json` escapes it: `"` and `\` behind a
/// backslash, backspace, tab, line feed, form feed and carriage return as `\b \t \n \f \r`, any
/// other character below U+0020 as `\u00` and two lowercase hex digits, and every other character
/// as it is.
pub open spec fn json_escaped(c: char) -> Seq<char> {
    let u = c as u32;
    if c == '"' {
        seq!['\\', '"']
    } else if c == '\\' {
        seq!['\\', '\\']
    } else if u == 0x08 {
        seq!['\\', 'b']
    } else if u == 0x09 {
        seq!['\\', 't']
    } else if u == 0x0a {
        seq!['\\', 'n']
    } else if u == 0x0c {
        seq!['\\', 'f']
    } else if u == 0x0d {
        seq!['\\', 'r']
    } else if u < 0x20 {
        seq!['\\', 'u', '0', '0', lower_hex(u / 16), lower_hex(u % 16)]
    } else {
        seq![c]
    }
}

/// The characters of `s`, each as JSON writes it inside a string.
pub open spec fn json_escaped_all(s: Seq<char>) -> Seq<char>
    decreases s.len(),
{
    if s.len() == 0 {
        seq![]
    } else {
        json_escaped_all(s.drop_last()) + json_escaped(s.last())
    }
}

/// A string as JSON writes it: in double quotes, each character escaped as [`json_escaped`] says.
pub open spec fn json_quoted(s: Seq<char>) -> Seq<char> {
    seq!['"'] + json_escaped_all(s) + seq!['"']
}

/// A lowercase hex digit, for a value below sixteen.
fn hex_lower(d: u32) -> (c: char)
    requires
        d < 16,
    ensures
        c == lower_hex(d),
{
    let b: u8 = if d < 10 { 0x30 + d as u8 } else { 0x61 + d as u8 - 10 };
    b as char
}

/// Append `c` as JSON writes it inside a string.
fn push_escaped(r: &mut String, c: char)
    ensures
        final(r)@ == old(r)@ + json_escaped(c),
{
    let u = c as u32;
    let ghost start = r@;
    if c == '"' {
        push_char(r, '\\');
        push_char(r, '"');
    } else if c == '\\' {
        push_char(r, '\\');
        push_char(r, '\\');
    } else if u == 0x08 {
        push_char(r, '\\');
        push_char(r, 'b');
    } else if u == 0x09 {
        push_char(r, '\\');
        push_char(r, 't');
    } else if u == 0x0a {
        push_char(r, '\\');
        push_char(r, 'n');
    } else if u == 0x0c {
        push_char(r, '\\');
        push_char(r, 'f');
    } else if u == 0x0d {
        push_char(r, '\\');
        push_char(r, 'r');
    } else if u < 0x20 {
        push_char(r, '\\');
        push_char(r, 'u');
        push_char(r, '0');
        push_char(r, '0');
        push_char(r, hex_lower(u / 16));
        push_char(r, hex_lower(u % 16));
    } else {
        push_char(r, c);
    }
    assert(r@ =~= start + json_escaped(c));
}

/// `s` written as a JSON string, as `serde_json` writes a string value: in double quotes, each
/// character escaped as [`json_escaped`] says.
pub(crate) fn json_text(s: &str) -> (r: String)
    ensures
        r@ == json_quoted(s@),
{
    let v = chars_of(s);
    let mut r = String::new();
    push_char(&mut r, '"');
    let mut i: usize = 0;
    while i < v.len()
        invariant
            i <= v@.len(),
            v@ == s@,
            r@ == seq!['"'] + json_escaped_all(v@.take(i as int)),
        decreases v@.len() - i,
    {
        push_escaped(&mut r, v[i]);
        assert(v@.take(i + 1).drop_last() =~= v@.take(i as int));
        assert(v@.take(i + 1).last() == v@[i as int]);
        i = i + 1;
    }
    assert(v@.take(v@.len() as int) =~= v@);
    push_char(&mut r, '"');
    r
}

} // verus!
