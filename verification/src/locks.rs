//! Check-out locks: who takes one, and who releases one. A holder is free text, recorded and shown
//! to other people, and proves nothing.

use vstd::prelude::*;
use crate::text::{trim, trimmed};

verus! {

/// The `holder` and `by` columns' own limit, in characters.
pub const MAX_NAME_CHARS: usize = 200;

/// `POST /api/parts/{id}/checkout`'s body.
#[derive(Debug)]
pub struct NewCheckout {
    /// Who is checking the part out, as free text: the agent sends `$USER@$HOSTNAME`.
    pub holder: String,
}

/// `POST /api/parts/{id}/lock/release`'s body.
#[derive(Debug)]
pub struct ReleaseLock {
    /// Who is releasing it. Recorded, and named to the holder when their next save is refused.
    pub by: String,
}

/// A name as a lock records it: trimmed, and 1 to [`MAX_NAME_CHARS`] characters.
pub open spec fn name_kept(name: Option<Seq<char>>) -> Option<Seq<char>> {
    match name {
        Some(n) => if 1 <= trimmed(n).len() <= MAX_NAME_CHARS {
            Some(trimmed(n))
        } else {
            None
        },
        None => None,
    }
}

/// The holder or releaser a request named, trimmed; `None` when it named nobody, or a name
/// blank or over [`MAX_NAME_CHARS`].
pub fn named(name: Option<String>) -> (r: Option<String>)
    ensures
        match name_kept(crate::filters::text_of(name)) {
            Some(n) => r matches Some(t) && t@ == n,
            None => r is None,
        },
{
    match name {
        None => None,
        Some(n) => {
            let t = trim(n.as_str());
            let count = crate::text::chars_of(t.as_str()).len();
            if count >= 1 && count <= MAX_NAME_CHARS {
                Some(t)
            } else {
                None
            }
        },
    }
}

} // verus!
