//! The server's configuration, as far as it is decided here: where it listens by default, what
//! its startup log says of the CAD kernel, and how an optional number in the environment reads.

use vstd::prelude::*;
use crate::number::{parse_unsigned, unsigned_value};
use crate::text::{trim, trimmed};

verus! {

/// Where the server listens unless `LAPIDARY_BIND` says otherwise.
pub fn default_bind() -> (s: String)
    ensures
        s@ == "0.0.0.0:8080"@,
{
    "0.0.0.0:8080".to_owned()
}

/// The kernel line of the startup log, for a build that compiles no CAD kernel in.
pub fn kernel_description() -> (s: String)
    ensures
        s@ == "none (build with --features mock-kernel to compile one in)"@,
{
    "none (build with --features mock-kernel to compile one in)".to_owned()
}

/// An optional count from the environment: present and blank reads as absent, which is what
/// `${VAR:-}` in a compose file produces; anything else must be a whole number.
pub open spec fn optional_count(raw: Seq<char>) -> Result<Option<nat>, ()> {
    let t = trimmed(raw);
    if t.len() == 0 {
        Ok(None)
    } else {
        match unsigned_value(t, usize::MAX as nat) {
            Some(v) => Ok(Some(v)),
            None => Err(()),
        }
    }
}

/// A worker variable read as a count: blank is unset, and a value that is not a whole number is
/// refused rather than silently defaulted.
pub fn empty_str_as_none(raw: &str) -> (r: Result<Option<usize>, ()>)
    ensures
        match optional_count(raw@) {
            Ok(None) => r == Ok::<Option<usize>, ()>(None),
            Ok(Some(v)) => r == Ok::<Option<usize>, ()>(Some(v as usize)),
            Err(_) => r is Err,
        },
{
    let t = trim(raw);
    if t.as_str().is_empty() {
        return Ok(None);
    }
    match parse_unsigned(t.as_str(), usize::MAX as u64) {
        Some(v) => Ok(Some(v as usize)),
        None => Err(()),
    }
}

} // verus!
