//! Which process this is, read from `LAPIDARY_ROLE`: a role this parser does not know is a
//! startup failure rather than a silent fallback.

use vstd::prelude::*;
use crate::text::{push_all, same_text};

verus! {

/// What follows the refused value in [`ApiError::UnknownRole`]'s sentence.
pub const NOT_A_ROLE: &'static str = "` is not a role. Set LAPIDARY_ROLE to `api` (serves the grid and the open path) or `worker` (runs ingest). deploy/compose.yaml sets it per service.";

/// Which process this is. `api` serves the open path; `worker` runs ingest; `peer` serves the
/// peer protocol to the installations its owner paired with, and nothing else.
#[derive(Debug, Clone, Copy, PartialEq, Eq, Structural)]
pub enum Role {
    Api,
    Worker,
    Peer,
}

/// Errors raised while configuring the router, as opposed to a handler's at request time.
#[derive(Debug)]
pub enum ApiError {
    UnknownRole { got: String },
}

impl ApiError {
    /// The sentence the error is shown as.
    pub open spec fn sentence(&self) -> Seq<char> {
        match self {
            ApiError::UnknownRole { got } => "`"@ + got@ + NOT_A_ROLE@,
        }
    }

    /// The error in words: what was refused, and what to set instead.
    pub fn message(&self) -> (m: String)
        ensures
            m@ == self.sentence(),
    {
        match self {
            ApiError::UnknownRole { got } => {
                let mut m = "`".to_owned();
                push_all(&mut m, got.as_str());
                push_all(&mut m, NOT_A_ROLE);
                m
            },
        }
    }
}

/// The role a value names: `api`, `worker` or `peer`, and nothing else.
pub open spec fn role_named(s: Seq<char>) -> Option<Role> {
    if s == "api"@ {
        Some(Role::Api)
    } else if s == "worker"@ {
        Some(Role::Worker)
    } else if s == "peer"@ {
        Some(Role::Peer)
    } else {
        None
    }
}

impl Role {
    /// Parses the `LAPIDARY_ROLE` value, rejecting anything but the known roles rather than
    /// defaulting: a typo that fell back to `api` would put the ingest route nowhere.
    pub fn from_env_str(s: &str) -> (r: Result<Role, ApiError>)
        ensures
            match role_named(s@) {
                Some(role) => r == Ok::<Role, ApiError>(role),
                None => r matches Err(ApiError::UnknownRole { got }) && got@ == s@,
            },
    {
        if same_text(s, "api") {
            Ok(Role::Api)
        } else if same_text(s, "worker") {
            Ok(Role::Worker)
        } else if same_text(s, "peer") {
            Ok(Role::Peer)
        } else {
            Err(ApiError::UnknownRole { got: s.to_owned() })
        }
    }
}

} // verus!
