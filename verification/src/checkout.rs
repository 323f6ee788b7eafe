//! A checkout on disk: the folder a file is handed out in, and the record beside it that says
//! what it is a checkout of. Reading the workspace is the desktop binary's; which checkout a
//! part already has, and what a new one's folder is called, are decided here.

use vstd::prelude::*;
use crate::text::{push_all, same_text, trim, trimmed};

verus! {

/// The record a checkout folder holds.
pub const FILE: &'static str = ".lapidary-checkout.json";

/// What `checkin` renames [`FILE`] to: the record stays in the folder, and the agent stops
/// watching it. Nothing in the folder is deleted.
pub const CHECKED_IN: &'static str = ".lapidary-checked-in.json";

/// What a checkout is of.
#[derive(Debug, Clone)]
pub struct Checkout {
    pub server: String,
    pub library: String,
    pub part: String,
    /// The part's identity in its library, and the path a save is sent back under.
    pub source_path: String,
    pub lock: String,
    pub holder: String,
    /// The revision the file in this folder is of, moved on after each save the server keeps.
    pub revision: String,
    pub rev_label: String,
    pub file_name: String,
    /// BLAKE3 of the bytes that revision holds.
    pub blake3: String,
}

/// Whether `c` is a checkout of `part` from `server`.
pub open spec fn is_checkout_of(c: Checkout, server: Seq<char>, part: Seq<char>) -> bool {
    c.part@ == part && c.server@ == server
}

/// Whether the record found at `i` could be read and is a checkout of `part` from `server`.
pub open spec fn checkout_at(
    found: Seq<(String, Option<Checkout>)>,
    i: int,
    server: Seq<char>,
    part: Seq<char>,
) -> bool {
    match found[i].1 {
        Some(c) => is_checkout_of(c, server, part),
        None => false,
    }
}

/// The place of the first folder whose record could be read and is a checkout of `part` from
/// `server`, if one is.
pub open spec fn first_checkout_of(
    found: Seq<(String, Option<Checkout>)>,
    server: Seq<char>,
    part: Seq<char>,
) -> Option<int> {
    if exists|i: int| 0 <= i < found.len() && #[trigger] checkout_at(found, i, server, part) {
        Some(
            choose|i: int|
                0 <= i < found.len() && #[trigger] checkout_at(found, i, server, part) && forall|j: int|
                    0 <= j < i ==> !#[trigger] checkout_at(found, j, server, part),
        )
    } else {
        None
    }
}

/// This workspace's checkout of `part` from `server`, if there is one: what `lapidary open`
/// reuses rather than asking for a second lock on a part this computer already holds. `found`
/// is every checkout folder in the workspace, each with its record, or `None` where the record
/// could not be read.
pub fn find(found: Vec<(String, Option<Checkout>)>, server: &str, part: &str) -> (r: Option<
    (String, Checkout),
>)
    ensures
        match first_checkout_of(found@, server@, part@) {
            Some(i) => r matches Some(p) && p.0@ == found@[i].0@ && found@[i].1 == Some(p.1),
            None => r is None,
        },
{
    let ghost all = found@;
    let mut i: usize = 0;
    while i < found.len()
        invariant
            i <= found@.len(),
            found@ == all,
            forall|j: int| 0 <= j < i ==> !#[trigger] checkout_at(all, j, server@, part@),
        decreases found@.len() - i,
    {
        let hit = match &found[i].1 {
            Some(c) => same_text(c.part.as_str(), part) && same_text(c.server.as_str(), server),
            None => false,
        };
        if hit {
            proof {
                assert(checkout_at(all, i as int, server@, part@));
                let w = choose|w: int|
                    0 <= w < all.len() && #[trigger] checkout_at(all, w, server@, part@)
                        && forall|j: int| 0 <= j < w ==> !#[trigger] checkout_at(all, j, server@, part@);
                assert(w == i) by {
                    if w < i {
                        assert(!checkout_at(all, w, server@, part@));
                    } else if w > i {
                        assert(!checkout_at(all, i as int, server@, part@));
                    }
                }
            }
            let mut found = found;
            let (folder, record) = found.remove(i);
            match record {
                Some(c) => return Some((folder, c)),
                None => return None,
            }
        }
        assert(!checkout_at(all, i as int, server@, part@));
        i = i + 1;
    }
    None
}

/// What a new checkout's folder is named for, before it is made a folder name: the part number
/// trimmed, or the part's name when there is none or it is blank, then `_` and the revision.
pub open spec fn folder_base_of(part_number: Option<Seq<char>>, name: Seq<char>, rev_label: Seq<char>) -> Seq<char> {
    let base = match part_number {
        Some(n) => if trimmed(n).len() > 0 {
            trimmed(n)
        } else {
            name
        },
        None => name,
    };
    base + "_"@ + rev_label
}

/// `<part number, or else name>_<revision>`: what a checkout's folder is named for.
pub fn folder_base(part_number: Option<&str>, name: &str, rev_label: &str) -> (s: String)
    ensures
        s@ == folder_base_of(crate::fields::opt_view(part_number), name@, rev_label@),
{
    let mut s = match part_number {
        Some(n) => {
            let t = trim(n);
            if t.as_str().is_empty() {
                name.to_owned()
            } else {
                t
            }
        },
        None => name.to_owned(),
    };
    push_all(&mut s, "_");
    push_all(&mut s, rev_label);
    s
}

/// A character as a folder name holds it: a path separator or a control character becomes `-`.
pub open spec fn folder_char(c: char) -> char {
    if c == '/' || c == '\\' || crate::download::is_control(c) {
        '-'
    } else {
        c
    }
}

/// A checkout's folder name: [`folder_base_of`], with every character that could make a nested
/// folder or break a path replaced.
pub open spec fn folder_name_of(part_number: Option<Seq<char>>, name: Seq<char>, rev_label: Seq<char>) -> Seq<char> {
    folder_base_of(part_number, name, rev_label).map_values(|c: char| folder_char(c))
}

/// `<part number, or else name>_<revision>`, as one folder: flat and readable.
pub fn folder_name(part_number: Option<&str>, name: &str, rev_label: &str) -> (s: String)
    ensures
        s@ == folder_name_of(crate::fields::opt_view(part_number), name@, rev_label@),
{
    let base = folder_base(part_number, name, rev_label);
    let v = crate::text::chars_of(base.as_str());
    let mut s = String::new();
    let mut i: usize = 0;
    while i < v.len()
        invariant
            i <= v@.len(),
            s@ == v@.take(i as int).map_values(|c: char| folder_char(c)),
        decreases v@.len() - i,
    {
        let c = v[i];
        let u = c as u32;
        let d = if c == '/' || c == '\\' || u < 0x20 || (0x7f <= u && u < 0xa0) {
            '-'
        } else {
            c
        };
        crate::text::push_char(&mut s, d);
        assert(s@ =~= v@.take(i + 1).map_values(|c: char| folder_char(c)));
        i = i + 1;
    }
    assert(v@.take(v@.len() as int) =~= v@);
    s
}

/// A checkout folder never nests, whatever the part is called: its name holds no `/` and is
/// never `.` or `..`, since it always ends with `_` and the revision.
pub proof fn checkout_folder_never_nests(part_number: Option<Seq<char>>, name: Seq<char>, rev_label: Seq<char>)
    ensures
        !folder_name_of(part_number, name, rev_label).contains('/'),
        folder_name_of(part_number, name, rev_label) != seq!['.'],
        folder_name_of(part_number, name, rev_label) != seq!['.', '.'],
{
    let f = folder_name_of(part_number, name, rev_label);
    let b = folder_base_of(part_number, name, rev_label);
    reveal_strlit("_");
    if f.contains('/') {
        let i = choose|i: int| 0 <= i < f.len() && f[i] == '/';
        assert(f[i] == folder_char(b[i]));
    }
    let base = match part_number {
        Some(n) => if trimmed(n).len() > 0 { trimmed(n) } else { name },
        None => name,
    };
    assert(b =~= base + "_"@ + rev_label);
    assert(b[base.len() as int] == '_');
    assert(f[base.len() as int] == '_');
    assert(f.len() == base.len() + 1 + rev_label.len());
    if f == seq!['.'] {
        assert(seq!['.'][base.len() as int] == '.');
    }
    if f == seq!['.', '.'] {
        assert(seq!['.', '.'][base.len() as int] == '.');
    }
}

/// The record after the server kept a save as a new revision: that revision, its label and the
/// BLAKE3 of the bytes sent, with everything else as it was.
pub fn revised(c: Checkout, revision: String, rev_label: String, blake3: String) -> (r: Checkout)
    ensures
        r == (Checkout { revision, rev_label, blake3, ..c }),
{
    Checkout {
        server: c.server,
        library: c.library,
        part: c.part,
        source_path: c.source_path,
        lock: c.lock,
        holder: c.holder,
        revision,
        rev_label,
        file_name: c.file_name,
        blake3,
    }
}

/// Neither place for checkouts is set.
pub const WORKSPACE_UNSET: &'static str = "neither LAPIDARY_WORKSPACE nor HOME is set, so there is nowhere to put a checkout; set LAPIDARY_WORKSPACE to a folder";

/// Where checkouts go: `$LAPIDARY_WORKSPACE` as it is set, else `Lapidary/workspace` joined onto
/// `$HOME` as `Path::join` joins, else nowhere.
pub open spec fn workspace_of(value: Option<Seq<char>>, home: Option<Seq<char>>) -> Result<Seq<char>, Seq<char>> {
    match value {
        Some(v) => Ok(v),
        None => match home {
            Some(h) => Ok(crate::unix_path::joined(h, "Lapidary/workspace"@)),
            None => Err(WORKSPACE_UNSET@),
        },
    }
}

/// Where checkouts go, from `$LAPIDARY_WORKSPACE` and `$HOME` as the environment holds them.
pub fn workspace_dir(value: Option<&str>, home: Option<&str>) -> (r: Result<String, String>)
    ensures
        match workspace_of(crate::fields::opt_view(value), crate::fields::opt_view(home)) {
            Ok(d) => r matches Ok(s) && s@ == d,
            Err(m) => r matches Err(e) && e@ == m,
        },
{
    if let Some(v) = value {
        return Ok(v.to_owned());
    }
    match home {
        None => Err(WORKSPACE_UNSET.to_owned()),
        Some(h) => {
            let hc = crate::text::chars_of(h);
            let mut d = h.to_owned();
            if hc.len() > 0 && hc[hc.len() - 1] != '/' {
                push_all(&mut d, "/");
                proof {
                    reveal_strlit("/");
                }
            }
            push_all(&mut d, "Lapidary/workspace");
            proof {
                if hc@.len() == 0 {
                    assert(d@ =~= "Lapidary/workspace"@);
                } else if hc@.last() == '/' {
                    assert(d@ =~= h@ + "Lapidary/workspace"@);
                } else {
                    assert(d@ =~= h@ + seq!['/'] + "Lapidary/workspace"@);
                }
            }
            Ok(d)
        },
    }
}

} // verus!
