//! Sharing: this installation's name as the people it shares with see it, and where to reach
//! one of them.

use vstd::prelude::*;
use vstd::utf8::encode_utf8;
use crate::number::unsigned_value;
use crate::text::{chars_of, is_white, string_of_range, trim, trimmed, white};

verus! {

/// The longest name, in characters, as the table holds names.
pub const NAME_MAX: usize = 64;
/// The longest address, in bytes, as the table holds addresses.
pub const ADDRESS_MAX: usize = 255;

/// A name refused.
pub const BAD_NAME: &'static str = "A name for this installation is up to 64 characters, such as \"Furkan's workbench\". Shorten it and try again, or leave it empty to go by the device id alone.";

/// This installation, as the people it shares with know it.
#[derive(Debug)]
pub struct SharingIdentity {
    /// `None` until the peer role has run here, which is what sharing switched off looks like.
    pub device_id: Option<String>,
    pub name: Option<String>,
}

/// The `PUT` body. `None`, or nothing but spaces, clears the name.
#[derive(Debug)]
pub struct SetSharingName {
    pub name: Option<String>,
}

/// The `POST` body: what two people paste to each other.
#[derive(Debug)]
pub struct AddPeer {
    pub device_id: String,
    pub address: String,
}

/// The name kept for this installation: `Ok(None)` clears it, which is what an absent or blank
/// one asks; a trimmed one over [`NAME_MAX`] characters is refused.
pub open spec fn name_set(name: Option<Seq<char>>) -> Result<Option<Seq<char>>, ()> {
    match name {
        None => Ok(None),
        Some(n) => if trimmed(n).len() == 0 {
            Ok(None)
        } else if trimmed(n).len() > NAME_MAX {
            Err(())
        } else {
            Ok(Some(trimmed(n)))
        },
    }
}

/// `PUT /api/sharing/identity`'s name, trimmed; `Ok(None)` clears the name, and `Err` is
/// `badName` with its sentence.
pub fn sharing_name(name: Option<&str>) -> (r: Result<Option<String>, (&'static str, String)>)
    ensures
        match name_set(crate::fields::opt_view(name)) {
            Ok(None) => r matches Ok(None),
            Ok(Some(n)) => r matches Ok(Some(t)) && t@ == n,
            Err(_) => r matches Err(e) && e.0@ == "badName"@ && e.1@ == BAD_NAME@,
        },
{
    match name {
        None => Ok(None),
        Some(n) => {
            let t = trim(n);
            let count = chars_of(t.as_str()).len();
            if count == 0 {
                Ok(None)
            } else if count > NAME_MAX {
                Err(("badName", BAD_NAME.to_owned()))
            } else {
                Ok(Some(t))
            }
        },
    }
}

/// Where the last `c` in `s` is, or `-1`.
pub open spec fn last_index(s: Seq<char>, c: char) -> int
    decreases s.len(),
{
    if s.len() == 0 {
        -1
    } else if s.last() == c {
        s.len() - 1
    } else {
        last_index(s.drop_last(), c)
    }
}

/// A character a host may not hold: white space, `/` or `@`.
pub open spec fn unfit_in_host(c: char) -> bool {
    is_white(c) || c == '/' || c == '@'
}

/// An IPv6 address in brackets, as a URL writes one: more than two bytes, from `[` to `]`.
pub open spec fn is_bracketed(host: Seq<char>) -> bool {
    encode_utf8(host).len() > 2 && host[0] == '[' && host.last() == ']'
}

/// A host as an address names it: not empty, a colon only inside brackets, and no white space,
/// `/` or `@`.
pub open spec fn host_fits(host: Seq<char>) -> bool {
    &&& host.len() > 0
    &&& (is_bracketed(host) || !host.contains(':'))
    &&& forall|i: int| 0 <= i < host.len() ==> !unfit_in_host(#[trigger] host[i])
}

/// A port as an address names it: a `u16` other than 0.
pub open spec fn port_fits(port: Seq<char>) -> bool {
    unsigned_value(port, 65535) matches Some(p) && p != 0
}

/// Where to reach another installation: the address trimmed, when it is a host and a port split
/// at its last `:`, and no longer than [`ADDRESS_MAX`] bytes.
pub open spec fn reachable(raw: Seq<char>) -> Option<Seq<char>> {
    let address = trimmed(raw);
    let k = last_index(address, ':');
    if k < 0 {
        None
    } else {
        let host = address.take(k);
        let port = address.skip(k + 1);
        if port_fits(port) && host_fits(host) && encode_utf8(address).len() <= ADDRESS_MAX {
            Some(address)
        } else {
            None
        }
    }
}

/// Where the last `c` in `v` is, if it holds one.
fn find_last(v: &Vec<char>, c: char) -> (r: Option<usize>)
    ensures
        match r {
            Some(k) => k as int == last_index(v@, c) && k < v@.len(),
            None => last_index(v@, c) == -1,
        },
{
    let mut n = v.len();
    assert(v@.take(v@.len() as int) =~= v@);
    while n > 0
        invariant
            n <= v@.len(),
            last_index(v@, c) == last_index(v@.take(n as int), c),
        decreases n,
    {
        if v[n - 1] == c {
            return Some(n - 1);
        }
        assert(v@.take(n as int).drop_last() =~= v@.take(n - 1));
        n = n - 1;
    }
    None
}

/// Lemma: `last_index` of a prefix, when the prefix ends where the character is.
proof fn lemma_last_index_bounds(s: Seq<char>, c: char)
    ensures
        -1 <= last_index(s, c) < s.len(),
        last_index(s, c) >= 0 ==> s[last_index(s, c)] == c,
    decreases s.len(),
{
    if s.len() > 0 && s.last() != c {
        lemma_last_index_bounds(s.drop_last(), c);
    }
}

/// Whether the host holds a character it may not.
fn host_unfit(host: &Vec<char>) -> (r: bool)
    ensures
        r == exists|i: int| 0 <= i < host@.len() && unfit_in_host(#[trigger] host@[i]),
{
    let mut i: usize = 0;
    while i < host.len()
        invariant
            i <= host@.len(),
            forall|k: int| 0 <= k < i ==> !unfit_in_host(#[trigger] host@[k]),
        decreases host@.len() - i,
    {
        let c = host[i];
        if white(c) || c == '/' || c == '@' {
            assert(unfit_in_host(host@[i as int]));
            return true;
        }
        i = i + 1;
    }
    false
}

/// Where to reach another installation, as its owner reads it off their own sharing page: a
/// host and a port, with an IPv6 address in brackets. No scheme and no path, since the peer
/// protocol decides both.
pub fn reachable_at(raw: &str) -> (r: Option<String>)
    ensures
        match reachable(raw@) {
            Some(a) => r matches Some(t) && t@ == a,
            None => r is None,
        },
{
    let address = trim(raw);
    let v = chars_of(address.as_str());
    let k = match find_last(&v, ':') {
        Some(k) => k,
        None => return None,
    };
    let host_chars = string_of_range(&v, 0, k);
    let port = string_of_range(&v, k + 1, v.len());
    assert(v@.subrange(0, k as int) =~= v@.take(k as int));
    assert(v@.subrange(k + 1, v@.len() as int) =~= v@.skip(k + 1));
    let port_ok = match crate::number::parse_unsigned(port.as_str(), 65535) {
        Some(p) => p != 0,
        None => false,
    };
    let hv = chars_of(host_chars.as_str());
    let host_bytes = host_chars.as_str().as_bytes().len();
    let bracketed = host_bytes > 2 && hv[0] == '[' && hv[hv.len() - 1] == ']';
    let has_colon = match find_last(&hv, ':') {
        Some(_) => true,
        None => false,
    };
    proof {
        lemma_last_index_bounds(hv@, ':');
        if hv@.contains(':') {
            let j = choose|j: int| 0 <= j < hv@.len() && hv@[j] == ':';
            lemma_last_index_at_least(hv@, ':', j);
        }
        if bracketed {
            assert(encode_utf8(hv@).len() > 2);
            if hv@.len() == 0 {
                assert(hv@ =~= Seq::<char>::empty());
            }
        }
    }
    let host_ok = hv.len() > 0 && (bracketed || !has_colon) && !host_unfit(&hv);
    let within = address.as_str().as_bytes().len() <= ADDRESS_MAX;
    if port_ok && host_ok && within {
        Some(address)
    } else {
        None
    }
}

/// The last `c` is at or after any `c`.
proof fn lemma_last_index_at_least(s: Seq<char>, c: char, j: int)
    requires
        0 <= j < s.len(),
        s[j] == c,
    ensures
        last_index(s, c) >= j,
    decreases s.len(),
{
    if s.last() != c {
        assert(s.drop_last()[j] == c);
        lemma_last_index_at_least(s.drop_last(), c, j);
    }
}

} // verus!
