//! `lapidary://open?part=<part id>`: the one link the desktop handler acts on. Any web page can
//! hand the handler a link, so exactly one shape is accepted, and nothing a link carries can name
//! a server, a folder, a file or a program.

use vstd::prelude::*;
use crate::text::{chars_of, has_prefix, push_all, string_of_range};

verus! {

/// What every link the handler opens begins with.
pub const PREFIX: &'static str = "lapidary://open?part=";

/// After the link, when it is not one Lapidary opens.
pub const NOT_OURS: &'static str = " is not a link Lapidary opens, so nothing was opened. The only one is lapidary://open?part=<part id>, from a part's page.";

/// After the link, when it carries more than a part id.
pub const NOT_AN_ID: &'static str = " carries something other than a part id, so nothing was opened. Open the part from its page in Lapidary.";

/// Before the id, after the link, when the id is not a part id.
pub const NOT_A_PART: &'static str = " does not name a part (";

/// After the id when it is not a part id.
pub const NOT_A_PART_TAIL: &'static str = " is not a part id), so nothing was opened. Open the part from its page in Lapidary.";

/// A part id's shape: a UUID as hex digits in groups of 8, 4, 4, 4 and 12, joined by hyphens.
pub open spec fn is_part_id(id: Seq<char>) -> bool {
    &&& id.len() == 36
    &&& forall|i: int|
        0 <= i < 36 ==> if i == 8 || i == 13 || i == 18 || i == 23 {
            #[trigger] id[i] == '-'
        } else {
            is_hex(id[i])
        }
}

/// An ASCII hex digit.
pub open spec fn is_hex(c: char) -> bool {
    ('0' <= c <= '9') || ('a' <= c <= 'f') || ('A' <= c <= 'F')
}

/// A character a part id is written with: an ASCII hex digit or `-`.
pub open spec fn id_char(c: char) -> bool {
    ('0' <= c <= '9') || ('a' <= c <= 'f') || ('A' <= c <= 'F') || c == '-'
}

/// The part id a link carries, or the sentence refusing it: the link must be [`PREFIX`] and then
/// one or more hex digits and hyphens, and nothing else; and those must spell a part id.
pub open spec fn link_part(link: Seq<char>) -> Result<Seq<char>, Seq<char>> {
    if !has_prefix(link, PREFIX@) {
        Err(link + NOT_OURS@)
    } else {
        let id = link.skip(PREFIX@.len() as int);
        if !(id.len() > 0 && forall|i: int| 0 <= i < id.len() ==> id_char(#[trigger] id[i])) {
            Err(link + NOT_AN_ID@)
        } else if !is_part_id(id) {
            Err(link + NOT_A_PART@ + id + NOT_A_PART_TAIL@)
        } else {
            Ok(id)
        }
    }
}

/// The part id a `lapidary://` link asks to open, as text, or what is wrong with the link, in
/// words for the person who clicked it.
pub fn part(link: &str) -> (r: Result<String, String>)
    ensures
        match link_part(link@) {
            Ok(id) => r matches Ok(s) && s@ == id,
            Err(m) => r matches Err(e) && e@ == m,
        },
{
    let v = chars_of(link);
    let p = chars_of(PREFIX);
    if !crate::text::starts_with(&v, &p) {
        let mut m = link.to_owned();
        push_all(&mut m, NOT_OURS);
        return Err(m);
    }
    let start = p.len();
    let mut i = start;
    let ghost id = v@.skip(start as int);
    while i < v.len()
        invariant
            start <= i <= v@.len(),
            v@ == link@,
            has_prefix(link@, PREFIX@),
            start == PREFIX@.len(),
            id == v@.skip(start as int),
            forall|k: int| 0 <= k < i - start ==> id_char(#[trigger] id[k]),
        decreases v@.len() - i,
    {
        let c = v[i];
        let ok = ('0' <= c && c <= '9') || ('a' <= c && c <= 'f') || ('A' <= c && c <= 'F') || c
            == '-';
        if !ok {
            assert(!id_char(id[i - start]));
            let mut m = link.to_owned();
            push_all(&mut m, NOT_AN_ID);
            return Err(m);
        }
        i = i + 1;
    }
    if start == v.len() {
        let mut m = link.to_owned();
        push_all(&mut m, NOT_AN_ID);
        return Err(m);
    }
    let s = string_of_range(&v, start, v.len());
    assert(v@.subrange(start as int, v@.len() as int) =~= id);
    if !part_id(&s) {
        let mut m = link.to_owned();
        push_all(&mut m, NOT_A_PART);
        push_all(&mut m, s.as_str());
        push_all(&mut m, NOT_A_PART_TAIL);
        return Err(m);
    }
    Ok(s)
}

/// Whether `id` has a part id's shape.
fn part_id(id: &String) -> (ok: bool)
    ensures
        ok == is_part_id(id@),
{
    let v = chars_of(id.as_str());
    if v.len() != 36 {
        return false;
    }
    let mut i: usize = 0;
    while i < 36
        invariant
            i <= 36,
            v@ == id@,
            v@.len() == 36,
            forall|k: int|
                0 <= k < i ==> if k == 8 || k == 13 || k == 18 || k == 23 {
                    #[trigger] v@[k] == '-'
                } else {
                    is_hex(v@[k])
                },
        decreases 36 - i,
    {
        let c = v[i];
        let ok = if i == 8 || i == 13 || i == 18 || i == 23 {
            c == '-'
        } else {
            ('0' <= c && c <= '9') || ('a' <= c && c <= 'f') || ('A' <= c && c <= 'F')
        };
        if !ok {
            assert(!(if i == 8 || i == 13 || i == 18 || i == 23 { v@[i as int] == '-' } else { is_hex(v@[i as int]) }));
            return false;
        }
        i = i + 1;
    }
    true
}

/// Whether `id` can be an id: one or more hex digits and hyphens.
pub fn is_id(id: &str) -> (ok: bool)
    ensures
        ok == (id@.len() > 0 && forall|i: int| 0 <= i < id@.len() ==> id_char(#[trigger] id@[i])),
{
    let v = chars_of(id);
    if v.len() == 0 {
        return false;
    }
    let mut i: usize = 0;
    while i < v.len()
        invariant
            i <= v@.len(),
            v@ == id@,
            forall|k: int| 0 <= k < i ==> id_char(#[trigger] v@[k]),
        decreases v@.len() - i,
    {
        let c = v[i];
        if !(('0' <= c && c <= '9') || ('a' <= c && c <= 'f') || ('A' <= c && c <= 'F') || c == '-') {
            assert(!id_char(v@[i as int]));
            return false;
        }
        i = i + 1;
    }
    true
}

} // verus!
