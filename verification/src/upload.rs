//! Files into a library from a browser: which files the client still has to send, whether a
//! chunk may be appended to the staged file, and which staged files a commit stores.
//!
//! There is no session table: the staged file's length is the upload's state. Resuming is
//! `offset = length`, and a wrong offset is answered with the length the server actually has.

use vstd::prelude::*;
use crate::number::{decimal, decimal_text};
use crate::text::{contains_text, push_all, texts};

verus! {

/// The largest a single chunk may be: 16 MiB.
pub const MAX_CHUNK_BYTES: usize = 16777216;

/// The largest a source file may grow to while it is staged: 2 GiB.
pub const MAX_UPLOAD_BYTES: u64 = 2147483648;

/// What the client has to do, per file, sorted into three answers.
#[derive(Debug, Clone)]
pub struct UploadPlan {
    /// This library already indexes these bytes at this path. Nothing to send, nothing to
    /// commit.
    pub have: Vec<String>,
    /// The bytes are in the store; only the rows are missing. Commit without transferring.
    pub need_rows: Vec<String>,
    /// Send these.
    pub need_bytes: Vec<String>,
}

/// How much of a staged file the server holds: the answer to a chunk, and to a refused offset.
#[derive(Debug, Clone)]
pub struct ChunkAccepted {
    pub received: u64,
}

/// `PUT /api/libraries/{id}/uploads/{blake3}?offset=N`'s query.
#[derive(Debug)]
pub struct ChunkQuery {
    pub offset: u64,
}

/// Which of the first `n` files lands in which list: the paths of those this library holds, of
/// those whose bytes are stored, and of the rest.
pub open spec fn sorted(
    paths: Seq<Seq<char>>,
    hashes: Seq<Seq<char>>,
    held: Seq<bool>,
    stored: Seq<Seq<char>>,
    n: nat,
) -> (Seq<Seq<char>>, Seq<Seq<char>>, Seq<Seq<char>>)
    decreases n,
{
    if n == 0 {
        (seq![], seq![], seq![])
    } else {
        let (have, rows, bytes) = sorted(paths, hashes, held, stored, (n - 1) as nat);
        let p = paths[n - 1];
        if held[n - 1] {
            (have.push(p), rows, bytes)
        } else if stored.contains(hashes[n - 1]) {
            (have, rows.push(p), bytes)
        } else {
            (have, rows, bytes.push(p))
        }
    }
}

/// The probe's answer: each file, in order, under `have` when this library already holds its
/// bytes at its path (`held`), else under `need_rows` when the store holds its bytes for any
/// reason (`stored`), else under `need_bytes`.
pub fn plan_upload(paths: &[String], hashes: &[String], held: &[bool], stored: &[String]) -> (plan: UploadPlan)
    requires
        hashes@.len() == paths@.len(),
        held@.len() == paths@.len(),
    ensures
        (texts(plan.have@), texts(plan.need_rows@), texts(plan.need_bytes@)) == sorted(
            texts(paths@),
            texts(hashes@),
            held@,
            texts(stored@),
            paths@.len(),
        ),
{
    let mut plan = UploadPlan { have: Vec::new(), need_rows: Vec::new(), need_bytes: Vec::new() };
    let mut i: usize = 0;
    while i < paths.len()
        invariant
            i <= paths@.len(),
            hashes@.len() == paths@.len(),
            held@.len() == paths@.len(),
            (texts(plan.have@), texts(plan.need_rows@), texts(plan.need_bytes@)) == sorted(
                texts(paths@),
                texts(hashes@),
                held@,
                texts(stored@),
                i as nat,
            ),
        decreases paths@.len() - i,
    {
        let p = paths[i].clone();
        assert(p@ == texts(paths@)[i as int]);
        if held[i] {
            plan.have.push(p);
            assert(texts(plan.have@) =~= sorted(texts(paths@), texts(hashes@), held@, texts(stored@), i as nat).0.push(texts(paths@)[i as int]));
        } else if contains_text(stored, hashes[i].as_str()) {
            assert(hashes[i as int]@ == texts(hashes@)[i as int]);
            plan.need_rows.push(p);
            assert(texts(plan.need_rows@) =~= sorted(texts(paths@), texts(hashes@), held@, texts(stored@), i as nat).1.push(texts(paths@)[i as int]));
        } else {
            assert(hashes[i as int]@ == texts(hashes@)[i as int]);
            plan.need_bytes.push(p);
            assert(texts(plan.need_bytes@) =~= sorted(texts(paths@), texts(hashes@), held@, texts(stored@), i as nat).2.push(texts(paths@)[i as int]));
        }
        i = i + 1;
    }
    plan
}

/// Every file the probe is asked about is answered exactly once: the three lists together are as
/// long as the manifest.
pub proof fn every_file_answered_once(
    paths: Seq<Seq<char>>,
    hashes: Seq<Seq<char>>,
    held: Seq<bool>,
    stored: Seq<Seq<char>>,
    n: nat,
)
    ensures
        ({
            let (have, rows, bytes) = sorted(paths, hashes, held, stored, n);
            have.len() + rows.len() + bytes.len() == n
        }),
    decreases n,
{
    if n > 0 {
        every_file_answered_once(paths, hashes, held, stored, (n - 1) as nat);
    }
}

/// Why a chunk was not appended, short of the disk failing.
#[derive(Debug, Clone, Copy, PartialEq, Eq, Structural)]
pub enum ChunkRefusal {
    /// The staged file is `expected` bytes long, and the chunk said `got`.
    WrongOffset { expected: u64, got: u64 },
    /// The chunk would take the file past [`MAX_UPLOAD_BYTES`].
    TooLarge,
}

impl ChunkRefusal {
    /// The sentence the refusal is answered with.
    pub open spec fn sentence(self) -> Seq<char> {
        match self {
            ChunkRefusal::WrongOffset { expected, got } => "This upload is at byte "@ + decimal(
                expected as nat,
            ) + ", not "@ + decimal(got as nat) + ". Resume from "@ + decimal(expected as nat)
                + " — the `received` field is where to continue."@,
            ChunkRefusal::TooLarge =>
                "That file is larger than the 2 GB limit for a single source file."@,
        }
    }

    /// The refusal in words; a wrong offset also answers `received` with the length held.
    pub fn message(self) -> (m: String)
        ensures
            m@ == self.sentence(),
    {
        match self {
            ChunkRefusal::WrongOffset { expected, got } => {
                let e = decimal_text(expected);
                let mut m = "This upload is at byte ".to_owned();
                push_all(&mut m, e.as_str());
                push_all(&mut m, ", not ");
                let g = decimal_text(got);
                push_all(&mut m, g.as_str());
                push_all(&mut m, ". Resume from ");
                push_all(&mut m, e.as_str());
                push_all(&mut m, " — the `received` field is where to continue.");
                m
            },
            ChunkRefusal::TooLarge => {
                "That file is larger than the 2 GB limit for a single source file.".to_owned()
            },
        }
    }
}

/// Whether a chunk of `len` bytes at `offset` may be appended to a staged file `held` bytes long,
/// and how long the file is after it: the offset must be the file's end, and the file may not
/// pass [`MAX_UPLOAD_BYTES`].
pub fn append_check(held: u64, offset: u64, len: u64) -> (r: Result<u64, ChunkRefusal>)
    ensures
        offset != held ==> r == Err::<u64, ChunkRefusal>(
            ChunkRefusal::WrongOffset { expected: held, got: offset },
        ),
        offset == held && held + len > MAX_UPLOAD_BYTES ==> r == Err::<u64, ChunkRefusal>(
            ChunkRefusal::TooLarge,
        ),
        offset == held && held + len <= MAX_UPLOAD_BYTES ==> r == Ok::<u64, ChunkRefusal>(
            (held + len) as u64,
        ),
{
    if offset != held {
        return Err(ChunkRefusal::WrongOffset { expected: held, got: offset });
    }
    if len > MAX_UPLOAD_BYTES || held > MAX_UPLOAD_BYTES - len {
        return Err(ChunkRefusal::TooLarge);
    }
    Ok(held + len)
}

/// Which of the first `n` files a commit stores: each whose bytes the store lacks, once, at the
/// first file that names them.
pub open spec fn storing(hashes: Seq<Seq<char>>, stored: Seq<Seq<char>>, n: nat) -> Seq<int>
    decreases n,
{
    if n == 0 {
        seq![]
    } else {
        let prior = storing(hashes, stored, (n - 1) as nat);
        let h = hashes[n - 1];
        if stored.contains(h) || hashes.take(n - 1).contains(h) {
            prior
        } else {
            prior.push(n - 1)
        }
    }
}

/// The files a commit verifies and stores, by their place in the manifest: each set of bytes the
/// store lacks, once, so that two files with the same bytes do not race over one staged file.
pub fn to_store(hashes: &[String], stored: &[String]) -> (r: Vec<usize>)
    ensures
        r@.map_values(|i: usize| i as int) == storing(texts(hashes@), texts(stored@), hashes@.len()),
{
    let mut r: Vec<usize> = Vec::new();
    let mut seen: Vec<String> = Vec::new();
    let mut i: usize = 0;
    while i < hashes.len()
        invariant
            i <= hashes@.len(),
            texts(seen@) == texts(hashes@).take(i as int),
            r@.map_values(|k: usize| k as int) == storing(texts(hashes@), texts(stored@), i as nat),
        decreases hashes@.len() - i,
    {
        let h = hashes[i].as_str();
        assert(h@ == texts(hashes@)[i as int]);
        let known = contains_text(stored, h) || contains_text(seen.as_slice(), h);
        if !known {
            let ghost before = r@;
            r.push(i);
            assert(r@.map_values(|k: usize| k as int) =~= before.map_values(|k: usize| k as int).push(i as int));
        }
        let ghost prior = seen@;
        seen.push(hashes[i].clone());
        proof {
            assert(texts(prior).len() == prior.len());
            assert forall|k: int| 0 <= k < i + 1 implies #[trigger] texts(seen@)[k] == texts(hashes@).take(i + 1)[k] by {
                assert(texts(seen@)[k] == seen@[k]@);
                if k < i {
                    assert(texts(prior)[k] == prior[k]@);
                    assert(texts(prior)[k] == texts(hashes@).take(i as int)[k]);
                } else {
                    assert(seen@[k]@ == hashes@[i as int]@);
                }
            }
            assert(texts(seen@) =~= texts(hashes@).take(i + 1));
        }
        i = i + 1;
    }
    r
}

/// A bundle's name as an import takes it: the file's own name, not empty and with no folder in
/// it, and not one that `escapes` says reaches outside the upload (absolute, or holding `..`).
pub fn bundle_name_fits(name: &str, escapes: bool) -> (ok: bool)
    ensures
        ok == (name@.len() > 0 && !name@.contains('/') && !escapes),
{
    let v = crate::text::chars_of(name);
    if v.len() == 0 || escapes {
        return false;
    }
    let mut i: usize = 0;
    while i < v.len()
        invariant
            i <= v@.len(),
            v@ == name@,
            forall|k: int| 0 <= k < i ==> v@[k] != '/',
        decreases v@.len() - i,
    {
        if v[i] == '/' {
            assert(name@[i as int] == '/');
            return false;
        }
        i = i + 1;
    }
    true
}

/// Why the store refused a staged file, with the store's own sentence.
#[derive(Debug, Clone)]
pub enum PutFailure {
    /// The staged bytes do not hash to the name they were staged under: the client's fault.
    HashMismatch(String),
    /// Anything else the store ran into: the server's fault.
    Other(String),
}

/// What storing one committed file does next.
#[derive(Debug, Clone)]
pub enum StoreStep {
    /// Nothing is staged under this hash: refuse the commit (409) with this sentence.
    NotUploaded(String),
    /// Put the staged bytes into the store.
    Put,
    /// The store refused the bytes as the client's fault: remove the staged file and refuse
    /// (400) with this sentence.
    Refused(String),
    /// The store failed: remove the staged file and fail (500) with this sentence.
    Failed(String),
    /// The bytes are in the store: record the blob.
    Record,
}

/// After the quoted path of a file whose bytes were never staged.
pub const NOT_UPLOADED_TAIL: &'static str = " have not been uploaded yet. Send the file's chunks before committing it.";

/// The next step of storing the committed file `path`: whether its bytes are staged, then what
/// the store made of them once asked (`put`). The staged file is known-bad under its hash once
/// the store has refused it, whichever way.
pub fn staged_outcome(path: &str, staged_exists: bool, put: Option<Result<(), PutFailure>>) -> (r: StoreStep)
    ensures
        if !staged_exists {
            r matches StoreStep::NotUploaded(m) && m@ == "The bytes for "@ + crate::text::debug_quoted(
                path@,
            ) + NOT_UPLOADED_TAIL@
        } else {
            match put {
                None => r is Put,
                Some(Ok(_)) => r is Record,
                Some(Err(PutFailure::HashMismatch(m))) => r matches StoreStep::Refused(t) && t@ == m@,
                Some(Err(PutFailure::Other(m))) => r matches StoreStep::Failed(t) && t@ == m@,
            }
        },
{
    if !staged_exists {
        let mut m = "The bytes for ".to_owned();
        let quoted = crate::text::debug_text(path);
        push_all(&mut m, quoted.as_str());
        push_all(&mut m, NOT_UPLOADED_TAIL);
        return StoreStep::NotUploaded(m);
    }
    match put {
        None => StoreStep::Put,
        Some(Ok(())) => StoreStep::Record,
        Some(Err(PutFailure::HashMismatch(m))) => StoreStep::Refused(m),
        Some(Err(PutFailure::Other(m))) => StoreStep::Failed(m),
    }
}

/// Each file is answered in its own list: a file this library holds at its path is under `have`
/// whether or not the store holds its bytes; one it does not hold whose bytes are stored is under
/// `need_rows`; any other under `need_bytes`. With the three lists together as long as the
/// manifest, no file is answered in a second list.
pub proof fn each_file_in_its_own_list(
    paths: Seq<Seq<char>>,
    hashes: Seq<Seq<char>>,
    held: Seq<bool>,
    stored: Seq<Seq<char>>,
    n: nat,
)
    requires
        n <= paths.len(),
        n <= hashes.len(),
        n <= held.len(),
    ensures
        ({
            let (have, rows, bytes) = sorted(paths, hashes, held, stored, n);
            &&& forall|i: int| 0 <= i < n && #[trigger] held[i] ==> have.contains(paths[i])
            &&& forall|i: int| 0 <= i < n && !#[trigger] held[i] && stored.contains(hashes[i])
                ==> rows.contains(paths[i])
            &&& forall|i: int| 0 <= i < n && !#[trigger] held[i] && !stored.contains(hashes[i])
                ==> bytes.contains(paths[i])
            &&& have.len() + rows.len() + bytes.len() == n
        }),
    decreases n,
{
    every_file_answered_once(paths, hashes, held, stored, n);
    if n > 0 {
        let m = (n - 1) as nat;
        each_file_in_its_own_list(paths, hashes, held, stored, m);
        let (h0, r0, b0) = sorted(paths, hashes, held, stored, m);
        let (have, rows, bytes) = sorted(paths, hashes, held, stored, n);
        let k = m as int;
        if held[k] {
            assert(have == h0.push(paths[k]) && rows == r0 && bytes == b0);
        } else if stored.contains(hashes[k]) {
            assert(have == h0 && rows == r0.push(paths[k]) && bytes == b0);
        } else {
            assert(have == h0 && rows == r0 && bytes == b0.push(paths[k]));
        }
        assert forall|i: int| 0 <= i < n && #[trigger] held[i] implies have.contains(paths[i]) by {
            if i < k {
                let w = choose|w: int| 0 <= w < h0.len() && h0[w] == paths[i];
                assert(have[w] == paths[i]);
            } else {
                assert(have[have.len() - 1] == paths[i]);
            }
        }
        assert forall|i: int| 0 <= i < n && !#[trigger] held[i] && stored.contains(hashes[i]) implies rows.contains(
            paths[i],
        ) by {
            if i < k {
                let w = choose|w: int| 0 <= w < r0.len() && r0[w] == paths[i];
                assert(rows[w] == paths[i]);
            } else {
                assert(rows[rows.len() - 1] == paths[i]);
            }
        }
        assert forall|i: int| 0 <= i < n && !#[trigger] held[i] && !stored.contains(hashes[i]) implies bytes.contains(
            paths[i],
        ) by {
            if i < k {
                let w = choose|w: int| 0 <= w < b0.len() && b0[w] == paths[i];
                assert(bytes[w] == paths[i]);
            } else {
                assert(bytes[bytes.len() - 1] == paths[i]);
            }
        }
    }
}

} // verus!
