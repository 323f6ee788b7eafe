//! The desktop agent's decisions: which server and holder it speaks for, what a handed-out file is
//! called and whether its bytes are the revision's, and what each answer of a save sent back
//! leads to. The requests, the files and the waiting are the desktop binary's.

use vstd::prelude::*;
use crate::digest::{blake3_hex, blake3_hex_of};
use crate::number::{decimal, decimal_text};
use crate::sharing::last_index;
use crate::text::{
    chars_of, contains_text, drop_trailing, push_all, same_text, string_of_range, texts, trim,
    trimmed, without_trailing,
};

verus! {

/// The api on this machine, when `LAPIDARY_SERVER` is not set.
pub const LOCAL_SERVER: &'static str = "http://127.0.0.1:8080";

/// The largest chunk a save is sent back in: the size the web client sends, under the server's
/// 16 MiB limit.
pub const CHUNK_BYTES: usize = 8388608;

/// The server a command speaks to: `$LAPIDARY_SERVER` (given as `configured`), else the api on
/// this machine, without trailing slashes.
pub open spec fn server_of(configured: Option<Seq<char>>) -> Seq<char> {
    match configured {
        Some(s) => drop_trailing(s, '/'),
        None => drop_trailing(LOCAL_SERVER@, '/'),
    }
}

/// The server a command speaks to, from `$LAPIDARY_SERVER` if it is set.
pub fn server(configured: Option<&str>) -> (s: String)
    ensures
        s@ == server_of(crate::fields::opt_view(configured)),
{
    match configured {
        Some(c) => without_trailing(c, '/'),
        None => without_trailing(LOCAL_SERVER, '/'),
    }
}

/// `$USER@$HOSTNAME`, as free text that names a person for other people to read and proves
/// nothing: `someone` when there is no user, and the host from `$HOSTNAME`, else from the
/// host-name file, trimmed, or `this-computer` when that is blank or there is none.
pub open spec fn holder_of(
    user: Option<Seq<char>>,
    host_variable: Option<Seq<char>>,
    host_file: Option<Seq<char>>,
) -> Seq<char> {
    let u = match user {
        Some(u) => u,
        None => "someone"@,
    };
    let h = match host_variable {
        Some(h) => Some(h),
        None => host_file,
    };
    let host = match h {
        Some(h) => if trimmed(h).len() > 0 {
            trimmed(h)
        } else {
            "this-computer"@
        },
        None => "this-computer"@,
    };
    u + "@"@ + host
}

/// Who a checkout is taken by.
pub fn holder(user: Option<&str>, host_variable: Option<&str>, host_file: Option<&str>) -> (s: String)
    ensures
        s@ == holder_of(
            crate::fields::opt_view(user),
            crate::fields::opt_view(host_variable),
            crate::fields::opt_view(host_file),
        ),
{
    let mut s = match user {
        Some(u) => u.to_owned(),
        None => "someone".to_owned(),
    };
    push_all(&mut s, "@");
    let h = match host_variable {
        Some(h) => Some(h),
        None => host_file,
    };
    let host = match h {
        Some(h) => {
            let t = trim(h);
            if t.as_str().is_empty() {
                "this-computer".to_owned()
            } else {
                t
            }
        },
        None => "this-computer".to_owned(),
    };
    push_all(&mut s, host.as_str());
    s
}

/// What a command that has not arrived yet says.
pub open spec fn later_sentence(name: Seq<char>) -> Seq<char> {
    "`lapidary "@ + name
        + "` arrives in a later slice. Until then, run the stack with `podman compose -f deploy/compose.yaml up`."@
}

/// Why `lapidary worker` and `lapidary up` do nothing yet, and what to run instead.
pub fn later(name: &str) -> (s: String)
    ensures
        s@ == later_sentence(name@),
{
    let mut s = "`lapidary ".to_owned();
    push_all(&mut s, name);
    push_all(
        &mut s,
        "` arrives in a later slice. Until then, run the stack with `podman compose -f deploy/compose.yaml up`.",
    );
    s
}

/// The file's own name in a source path: what follows its last `/`, or all of it.
pub open spec fn file_name_in(source_path: Seq<char>) -> Seq<char> {
    source_path.skip(last_index(source_path, '/') + 1)
}

/// What a handed-out file is called in its checkout folder.
pub fn file_name_of(source_path: &str) -> (s: String)
    ensures
        s@ == file_name_in(source_path@),
{
    let v = chars_of(source_path);
    let mut n = v.len();
    assert(v@.take(v@.len() as int) =~= v@);
    while n > 0 && v[n - 1] != '/'
        invariant
            n <= v@.len(),
            last_index(v@, '/') == last_index(v@.take(n as int), '/'),
        decreases n,
    {
        assert(v@.take(n as int).drop_last() =~= v@.take(n - 1));
        n = n - 1;
    }
    proof {
        if n > 0 {
            assert(v@.take(n as int).last() == '/');
        }
    }
    let s = string_of_range(&v, n, v.len());
    assert(v@.subrange(n as int, v@.len() as int) =~= v@.skip(n as int));
    s
}

/// The digest of the bytes that arrived, when they are the ones the revision holds: they are
/// unless the revision names a digest and theirs is another. Hashed before anything is believed.
pub fn downloaded(known: Option<&str>, bytes: &[u8]) -> (r: Option<String>)
    ensures
        match crate::fields::opt_view(known) {
            Some(k) if k != blake3_hex(bytes@) => r is None,
            _ => r matches Some(h) && h@ == blake3_hex(bytes@),
        },
{
    let digest = blake3_hex_of(bytes);
    match known {
        Some(k) => if same_text(k, digest.as_str()) {
            Some(digest)
        } else {
            None
        },
        None => Some(digest),
    }
}

/// What the probe's answer leads to for the save being sent back.
#[derive(Debug, Clone, Copy, PartialEq, Eq, Structural)]
pub enum ProbeStep {
    /// The library already holds these bytes at this path: nothing new is kept.
    AlreadyKept,
    /// Send the bytes, then commit.
    SendBytes,
    /// The store has the bytes: commit without sending them.
    Commit,
}

/// The probe's answer for `path`: held already, bytes needed, or only the rows.
pub open spec fn probe_step(have: Seq<Seq<char>>, need_bytes: Seq<Seq<char>>, path: Seq<char>) -> ProbeStep {
    if have.contains(path) {
        ProbeStep::AlreadyKept
    } else if need_bytes.contains(path) {
        ProbeStep::SendBytes
    } else {
        ProbeStep::Commit
    }
}

/// What the probe's answer leads to.
pub fn after_probe(have: &[String], need_bytes: &[String], path: &str) -> (s: ProbeStep)
    ensures
        s == probe_step(texts(have@), texts(need_bytes@), path@),
{
    if contains_text(have, path) {
        ProbeStep::AlreadyKept
    } else if contains_text(need_bytes, path) {
        ProbeStep::SendBytes
    } else {
        ProbeStep::Commit
    }
}

/// What the batch a save was committed into says, each time it is read.
#[derive(Debug, Clone)]
pub enum BatchStep {
    /// Still running: read it again after the poll interval.
    Wait,
    /// The worker refused the save, in its own words; a released lock names who released it.
    Refused(String),
    /// Finished, and the part's current revision already held these bytes.
    NothingNew,
    /// Finished, and a new revision was kept.
    Revised,
}

/// What a batch read leads to: wait while it runs; once it is finished, its first failure is the
/// answer, else no revision kept is nothing new.
pub fn after_batch(finished: bool, first_failure: Option<&str>, revised: u32) -> (s: BatchStep)
    ensures
        !finished ==> s is Wait,
        finished && first_failure is Some ==> (s matches BatchStep::Refused(r) && r@
            == first_failure.unwrap()@),
        finished && first_failure is None && revised == 0 ==> s is NothingNew,
        finished && first_failure is None && revised > 0 ==> s is Revised,
{
    if !finished {
        return BatchStep::Wait;
    }
    match first_failure {
        Some(reason) => BatchStep::Refused(reason.to_owned()),
        None => if revised == 0 {
            BatchStep::NothingNew
        } else {
            BatchStep::Revised
        },
    }
}

/// Where the chunk that starts at `offset` ends, in a file of `len` bytes.
pub fn chunk_end(offset: usize, len: usize) -> (end: usize)
    requires
        offset < len,
    ensures
        end == (if offset + CHUNK_BYTES < len { offset + CHUNK_BYTES } else { len as int }),
        offset < end <= len,
{
    if len - offset > CHUNK_BYTES {
        offset + CHUNK_BYTES
    } else {
        len
    }
}

/// Why sending the bytes stopped short.
#[derive(Debug, Clone, Copy, PartialEq, Eq, Structural)]
pub enum ChunkStall {
    /// The server holds more bytes than this computer can count.
    Uncountable,
    /// The server accepted nothing at this byte.
    NothingAccepted { offset: usize },
}

impl ChunkStall {
    /// The sentence it is reported with.
    pub open spec fn sentence(self) -> Seq<char> {
        match self {
            ChunkStall::Uncountable =>
                "sending the bytes: the server holds more bytes than this computer can count"@,
            ChunkStall::NothingAccepted { offset } => "sending the bytes: the server accepted nothing at byte "@
                + decimal(offset as nat) + "; save the file again"@,
        }
    }

    /// The stall in words.
    pub fn message(self) -> (m: String)
        ensures
            m@ == self.sentence(),
    {
        match self {
            ChunkStall::Uncountable => {
                "sending the bytes: the server holds more bytes than this computer can count".to_owned()
            },
            ChunkStall::NothingAccepted { offset } => {
                let mut m = "sending the bytes: the server accepted nothing at byte ".to_owned();
                let o = decimal_text(offset as u64);
                push_all(&mut m, o.as_str());
                push_all(&mut m, "; save the file again");
                m
            },
        }
    }
}

/// Where sending continues after the server answered a chunk sent at `offset` with `received`,
/// the length it holds (a refused offset answers the same field): there, unless that is no
/// progress at all.
pub fn after_chunk(offset: usize, received: u64) -> (r: Result<usize, ChunkStall>)
    ensures
        received > usize::MAX ==> r == Err::<usize, ChunkStall>(ChunkStall::Uncountable),
        received <= usize::MAX && received == offset ==> r == Err::<usize, ChunkStall>(
            ChunkStall::NothingAccepted { offset },
        ),
        received <= usize::MAX && received != offset ==> r == Ok::<usize, ChunkStall>(
            received as usize,
        ),
{
    if received > usize::MAX as u64 {
        return Err(ChunkStall::Uncountable);
    }
    let received = received as usize;
    if received == offset {
        return Err(ChunkStall::NothingAccepted { offset });
    }
    Ok(received)
}

} // verus!
