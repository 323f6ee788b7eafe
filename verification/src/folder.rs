//! `lapidary watch <folder> --library <id>`: every model file under a folder, uploaded into a
//! library as it settles. This is the round's part that decides; listing the folder, reading
//! the files and sending them is the agent's.
//!
//! Every file under the folder is watched, so the ignore list applies whole. A settled change is
//! hashed before anything is believed, and sent the way the browser sends a drop, so the server
//! decides what it is. A file deleted here changes nothing in the library.

use vstd::prelude::*;
use crate::digest::{blake3_hex, blake3_hex_of};
use crate::text::{
    ascii_lower, chars_of, contains_text, ends_with, has_prefix, has_suffix, lower_all, push_all,
    same_chars, starts_with, string_of_range, texts,
};
use crate::order::key_before;
use crate::path_map::{keys_of, PathMap};
use crate::watch::{poll_spec, Seen, Verdict, Watch, WatchState};

pub use crate::unix_path::source_path;

verus! {

/// How often the folder is listed, in nanoseconds: two seconds.
pub const INTERVAL_NANOS: u64 = 2_000_000_000;

/// How long a file the library refused waits before it is sent again, unless it changes first:
/// five minutes, in nanoseconds. A part checked out to somebody refuses every upload until it is
/// checked in, and each try fails a job.
pub const RETRY_NANOS: u64 = 300_000_000_000;

/// The most bytes one upload holds in memory. Files that settle together go up together, in as
/// many uploads as keep each under this; a file larger than it goes up by itself.
pub const BATCH_BYTES: u64 = 64 * 1024 * 1024;

// ---------------------------------------------------------------------------------------------
// The ignore list
// ---------------------------------------------------------------------------------------------

/// The ignore list, whole: hidden files and folders, an office lock file, and the backups,
/// temporaries, locks and autosaves editors leave beside a model.
pub open spec fn is_ignored(name: Seq<char>) -> bool {
    let lower = ascii_lower(name);
    ||| has_prefix(name, seq!['.'])
    ||| has_prefix(name, seq!['~', '$'])
    ||| lower == seq!['t', 'h', 'u', 'm', 'b', 's', '.', 'd', 'b']
    ||| has_suffix(lower, seq!['.', 'b', 'a', 'k'])
    ||| has_suffix(lower, seq!['.', 't', 'm', 'p'])
    ||| has_suffix(lower, seq!['.', 'l', 'c', 'k'])
    ||| has_suffix(lower, seq!['.', 'a', 'u', 't', 'o', 's', 'a', 'v', 'e'])
}

/// Whether a file or folder named `name` is left alone.
pub fn ignored(name: &str) -> (b: bool)
    ensures
        b == is_ignored(name@),
{
    let name = chars_of(name);
    let lower = lower_all(&name);
    let dot = vec!['.'];
    let office = vec!['~', '$'];
    let thumbs = vec!['t', 'h', 'u', 'm', 'b', 's', '.', 'd', 'b'];
    let bak = vec!['.', 'b', 'a', 'k'];
    let tmp = vec!['.', 't', 'm', 'p'];
    let lck = vec!['.', 'l', 'c', 'k'];
    let autosave = vec!['.', 'a', 'u', 't', 'o', 's', 'a', 'v', 'e'];
    proof {
        assert(dot@ =~= seq!['.']);
        assert(office@ =~= seq!['~', '$']);
        assert(thumbs@ =~= seq!['t', 'h', 'u', 'm', 'b', 's', '.', 'd', 'b']);
        assert(bak@ =~= seq!['.', 'b', 'a', 'k']);
        assert(tmp@ =~= seq!['.', 't', 'm', 'p']);
        assert(lck@ =~= seq!['.', 'l', 'c', 'k']);
        assert(autosave@ =~= seq!['.', 'a', 'u', 't', 'o', 's', 'a', 'v', 'e']);
    }
    let r = starts_with(&name, &dot) || starts_with(&name, &office) || same_chars(&lower, &thumbs)
        || ends_with(&lower, &bak) || ends_with(&lower, &tmp) || ends_with(&lower, &lck)
        || ends_with(&lower, &autosave);
    r
}


// ---------------------------------------------------------------------------------------------
// What was sent
// ---------------------------------------------------------------------------------------------

/// What was last sent for one path.
#[derive(Debug, Clone, PartialEq, Eq)]
pub struct Known {
    pub size: u64,
    pub modified_ms: u64,
    pub blake3: String,
}

/// A look's modification time in milliseconds since the epoch, as the state file keeps it: `0`
/// before the epoch, and `u64::MAX` past what a `u64` counts.
pub open spec fn stamp_of(seen: Seen) -> u64 {
    if seen.modified_nanos < 0 {
        0
    } else if seen.modified_nanos / 1_000_000 > u64::MAX as int {
        u64::MAX
    } else {
        (seen.modified_nanos / 1_000_000) as u64
    }
}

/// A look's modification time, in milliseconds since the epoch, as the state file keeps it.
pub fn stamp(seen: &Seen) -> (ms: u64)
    ensures
        ms == stamp_of(*seen),
{
    if seen.modified_nanos < 0 {
        0
    } else {
        let ms = seen.modified_nanos / 1_000_000;
        if ms > u64::MAX as i128 {
            u64::MAX
        } else {
            ms as u64
        }
    }
}

/// What is recorded as sent for a file seen as `seen` whose bytes are `bytes`: its size, its
/// modification time in milliseconds, and the digest of the bytes.
pub fn sent_for(seen: &Seen, bytes: &[u8]) -> (k: Known)
    ensures
        k.size == seen.size,
        k.modified_ms == stamp_of(*seen),
        k.blake3@ == blake3_hex(bytes@),
{
    Known { size: seen.size, modified_ms: stamp(seen), blake3: blake3_hex_of(bytes) }
}

/// The name of a watch's state file: `watch-<library>-<folder>.json`, the folder as the first
/// sixteen hex digits of its path's BLAKE3. One state per folder: two watches into one library
/// would otherwise each read the other's files as deleted here.
pub open spec fn state_file_name(library: Seq<char>, root: Seq<char>) -> Seq<char> {
    seq!['w', 'a', 't', 'c', 'h', '-'] + library + seq!['-'] + blake3_hex(
        vstd::utf8::encode_utf8(root),
    ).take(16) + seq!['.', 'j', 's', 'o', 'n']
}

/// The state file's name for watching `root` into `library`.
pub fn state_name(library: &str, root: &str) -> (name: String)
    ensures
        name@ == state_file_name(library@, root@),
{
    let digest = chars_of(blake3_hex_of(root.as_bytes()).as_str());
    let mut name = String::new();
    push_all(&mut name, "watch-");
    push_all(&mut name, library);
    push_all(&mut name, "-");
    let head = string_of_range(&digest, 0, 16);
    push_all(&mut name, head.as_str());
    push_all(&mut name, ".json");
    proof {
        reveal_strlit("watch-");
        reveal_strlit("-");
        reveal_strlit(".json");
        assert(name@ =~= state_file_name(library@, root@));
    }
    name
}

/// Where a watch keeps what it sent: `lapidary/` and its state file's name under the state
/// directory (`$XDG_STATE_HOME`, else `~/.local/state`). Nothing is ever written inside the
/// watched folder.
pub fn state_path(state_home: &str, library: &str, root: &str) -> (path: String)
    ensures
        path@ == state_home@ + "/lapidary/"@ + state_file_name(library@, root@),
{
    let mut path = state_home.to_owned();
    push_all(&mut path, "/lapidary/");
    let name = state_name(library, root);
    push_all(&mut path, name.as_str());
    path
}

// ---------------------------------------------------------------------------------------------
// What the library kept
// ---------------------------------------------------------------------------------------------

/// One file the library did not keep, and why, in the worker's words.
#[derive(Debug, Clone, PartialEq, Eq)]
pub struct Failure {
    pub path: String,
    pub reason: String,
}

/// An upload's batch, as the server reports it once it has finished.
#[derive(Debug, Clone, PartialEq, Eq)]
pub struct Batch {
    pub finished_at: Option<String>,
    pub ingested: u32,
    pub skipped: u32,
    pub revised: u32,
    pub unkept: u32,
    /// How many files failed, which can be more than `failed` lists.
    pub failed_total: u32,
    pub failed: Vec<Failure>,
}

/// The paths a batch's failures name, in order.
pub open spec fn failed_paths(batch: Batch) -> Seq<Seq<char>> {
    batch.failed@.map_values(|f: Failure| f.path@)
}

/// The paths of `paths` that `named` holds, in order.
pub open spec fn paths_named(paths: Seq<Seq<char>>, named: Seq<Seq<char>>) -> Seq<Seq<char>>
    decreases paths.len(),
{
    if paths.len() == 0 {
        seq![]
    } else {
        paths_named(paths.drop_last(), named) + (if named.contains(paths.last()) {
            seq![paths.last()]
        } else {
            seq![]
        })
    }
}

/// Whether every failure can be matched to a path committed: the batch lists them all, and each
/// names a path that was sent.
pub open spec fn failures_matched(committed: Seq<Seq<char>>, batch: Batch) -> bool {
    &&& batch.failed_total <= batch.failed@.len()
    &&& forall|i: int| 0 <= i < batch.failed@.len() ==> committed.contains(#[trigger] failed_paths(batch)[i])
}

/// The paths committed that the library did not keep, by the batch's failures; all of them when
/// the failures cannot all be matched to a path.
pub open spec fn refused_paths(committed: Seq<Seq<char>>, batch: Option<Batch>) -> Seq<Seq<char>> {
    match batch {
        None => seq![],
        Some(b) => if failures_matched(committed, b) {
            paths_named(committed, failed_paths(b))
        } else {
            committed
        },
    }
}

/// The paths committed that the library did not keep.
pub fn refusals(committed: &[String], batch: Option<&Batch>) -> (r: Vec<String>)
    ensures
        texts(r@) == refused_paths(texts(committed@), match batch {
            Some(b) => Some(*b),
            None => None,
        }),
{
    let batch = match batch {
        None => {
            let r: Vec<String> = Vec::new();
            assert(texts(r@) =~= Seq::<Seq<char>>::empty());
            return r;
        },
        Some(batch) => batch,
    };
    let ghost c = texts(committed@);
    let ghost fp = failed_paths(*batch);
    let mut matched = (batch.failed_total as usize) <= batch.failed.len();
    let mut i: usize = 0;
    while i < batch.failed.len()
        invariant
            i <= batch.failed@.len(),
            c == texts(committed@),
            fp == failed_paths(*batch),
            matched == (batch.failed_total <= batch.failed@.len() && forall|k: int| 0 <= k < i ==> c.contains(#[trigger] fp[k])),
        decreases batch.failed@.len() - i,
    {
        if !contains_text(committed, batch.failed[i].path.as_str()) {
            assert(fp[i as int] == batch.failed@[i as int].path@);
            matched = false;
        } else {
            assert(fp[i as int] == batch.failed@[i as int].path@);
        }
        i = i + 1;
    }
    let mut out: Vec<String> = Vec::new();
    let mut j: usize = 0;
    let failed_names: Vec<String> = {
        let mut names: Vec<String> = Vec::new();
        let mut q: usize = 0;
        while q < batch.failed.len()
            invariant
                q <= batch.failed@.len(),
                fp == failed_paths(*batch),
                texts(names@) == fp.take(q as int),
            decreases batch.failed@.len() - q,
        {
            let ghost before = names@;
            names.push(batch.failed[q].path.clone());
            assert(fp[q as int] == batch.failed@[q as int].path@);
            assert(texts(names@) =~= texts(before).push(fp[q as int]));
            assert(fp.take(q + 1) =~= fp.take(q as int).push(fp[q as int]));
            q = q + 1;
        }
        assert(fp.take(fp.len() as int) =~= fp);
        names
    };
    while j < committed.len()
        invariant
            j <= committed@.len(),
            c == texts(committed@),
            fp == failed_paths(*batch),
            texts(failed_names@) == fp,
            texts(out@) == (if matched { paths_named(c.take(j as int), fp) } else { c.take(j as int) }),
        decreases committed@.len() - j,
    {
        let keep = !matched || contains_text(failed_names.as_slice(), committed[j].as_str());
        if keep {
            out.push(committed[j].clone());
        }
        proof {
            assert(c.take(j + 1).drop_last() =~= c.take(j as int));
            assert(c.take(j + 1).last() == committed@[j as int]@);
            if keep {
                assert(texts(out@) =~= texts(out@.drop_last()).push(committed@[j as int]@));
            }
            assert(texts(out@) =~= (if matched { paths_named(c.take(j + 1), fp) } else { c.take(j + 1) }));
        }
        j = j + 1;
    }
    assert(c.take(c.len() as int) =~= c);
    out
}


/// Whether the bytes just hashed for `path` are the ones last sent for it: a touch that changed
/// no bytes, recorded without sending anything.
pub fn already_sent(known: &PathMap<Known>, path: &str, sent: &Known) -> (b: bool)
    ensures
        b == (known@.contains_key(path@) && known@[path@].blake3@ == sent.blake3@),
{
    match known.get(path) {
        Some(last) => crate::text::same_text(last.blake3.as_str(), sent.blake3.as_str()),
        None => false,
    }
}

/// The paths of `sent` that the server did not already hold as they are, in order.
pub open spec fn not_held(sent: Seq<Seq<char>>, have: Seq<Seq<char>>) -> Seq<Seq<char>>
    decreases sent.len(),
{
    if sent.len() == 0 {
        seq![]
    } else {
        not_held(sent.drop_last(), have) + (if have.contains(sent.last()) {
            seq![]
        } else {
            seq![sent.last()]
        })
    }
}

/// The paths an upload committed: those sent, less those the server already held as they are.
pub fn committed(sent: &[String], have: &[String]) -> (r: Vec<String>)
    ensures
        texts(r@) == not_held(texts(sent@), texts(have@)),
{
    let ghost s = texts(sent@);
    let mut r: Vec<String> = Vec::new();
    let mut i: usize = 0;
    while i < sent.len()
        invariant
            i <= sent@.len(),
            s == texts(sent@),
            texts(r@) == not_held(s.take(i as int), texts(have@)),
        decreases sent@.len() - i,
    {
        proof {
            assert(s.take(i + 1).drop_last() =~= s.take(i as int));
            assert(s.take(i + 1).last() == sent@[i as int]@);
        }
        if !contains_text(have, sent[i].as_str()) {
            let ghost before = r@;
            r.push(sent[i].clone());
            assert(texts(r@) =~= texts(before).push(sent@[i as int]@));
        }
        assert(texts(r@) =~= not_held(s.take(i + 1), texts(have@)));
        i = i + 1;
    }
    assert(s.take(s.len() as int) =~= s);
    r
}

/// Each sent path by its characters, beside what was sent for it.
pub open spec fn sent_view(sent: Seq<(String, Known)>) -> Seq<(Seq<char>, Known)> {
    sent.map_values(|e: (String, Known)| (e.0@, e.1))
}

/// An accepted upload's files, settled in order: each one kept is recorded as sent and no longer
/// waits, and each one refused waits from `now` to be sent again, recorded as nothing.
pub open spec fn settled_maps(
    known: Map<Seq<char>, Known>,
    refused: Map<Seq<char>, u64>,
    sent: Seq<(Seq<char>, Known)>,
    refusals: Seq<Seq<char>>,
    now: u64,
) -> (Map<Seq<char>, Known>, Map<Seq<char>, u64>)
    decreases sent.len(),
{
    if sent.len() == 0 {
        (known, refused)
    } else {
        let before = settled_maps(known, refused, sent.drop_last(), refusals, now);
        let path = sent.last().0;
        if refusals.contains(path) {
            (before.0, before.1.insert(path, now))
        } else {
            (before.0.insert(path, sent.last().1), before.1.remove(path))
        }
    }
}

/// Settles an accepted upload's files against its refusals.
pub fn settle(
    known: &mut PathMap<Known>,
    refused: &mut PathMap<u64>,
    sent: Vec<(String, Known)>,
    refusals: &[String],
    now: u64,
)
    ensures
        (final(known)@, final(refused)@) == settled_maps(
            old(known)@,
            old(refused)@,
            sent_view(sent@),
            texts(refusals@),
            now,
        ),
{
    let ghost all = sent_view(sent@);
    let ghost k0 = known@;
    let ghost r0 = refused@;
    let mut sent = sent;
    let ghost mut i: int = 0;
    while sent.len() > 0
        invariant
            0 <= i <= all.len(),
            sent_view(sent@) == all.skip(i),
            (known@, refused@) == settled_maps(k0, r0, all.take(i), texts(refusals@), now),
        decreases sent@.len(),
    {
        let ghost before = sent@;
        assert(sent_view(before).len() == before.len());
        assert(i < all.len());
        let (path, last) = sent.remove(0);
        proof {
            assert(sent_view(before)[0] == (before[0].0@, before[0].1));
            assert(all.skip(i)[0] == (path@, last));
            assert(all[i] == (path@, last));
            assert(all.take(i + 1).drop_last() =~= all.take(i));
            assert(all.take(i + 1).last() == (path@, last));
            assert(sent@ =~= before.skip(1));
            assert forall|k: int| 0 <= k < sent@.len() implies sent_view(sent@)[k] == all.skip(i + 1)[k] by {
                assert(sent_view(sent@)[k] == (sent@[k].0@, sent@[k].1));
                assert(sent@[k] == before[k + 1]);
                assert(sent_view(before)[k + 1] == (before[k + 1].0@, before[k + 1].1));
                assert(all.skip(i)[k + 1] == all.skip(i + 1)[k]);
            }
            assert(sent_view(sent@) =~= all.skip(i + 1));
        }
        if contains_text(refusals, path.as_str()) {
            refused.insert(path, now);
        } else {
            refused.remove(path.as_str());
            known.insert(path, last);
        }
        proof {
            i = i + 1;
        }
    }
    proof {
        assert(all.take(i) =~= all);
    }
}

/// What `path` weighs in the listing: its size, or nothing when it is not listed.
pub open spec fn listed_size(listing: Map<Seq<char>, Seen>, path: Seq<char>) -> int {
    if listing.contains_key(path) {
        listing[path].size as int
    } else {
        0
    }
}

/// The files to hash, in uploads of at most [`BATCH_BYTES`] by their listed sizes, in order:
/// each path joins the upload before it while that stays within the limit, and starts a new one
/// otherwise. Beside the uploads, the bytes the last one holds.
pub open spec fn grouped(paths: Seq<Seq<char>>, listing: Map<Seq<char>, Seen>) -> (Seq<Seq<Seq<char>>>, int)
    decreases paths.len(),
{
    if paths.len() == 0 {
        (seq![], 0)
    } else {
        let before = grouped(paths.drop_last(), listing);
        let path = paths.last();
        let size = listed_size(listing, path);
        if before.0.len() > 0 && before.1 + size <= BATCH_BYTES {
            (before.0.update(before.0.len() - 1, before.0.last().push(path)), before.1 + size)
        } else {
            (before.0.push(seq![path]), size)
        }
    }
}

/// The uploads, each by its paths' characters.
pub open spec fn group_texts(groups: Seq<Vec<String>>) -> Seq<Seq<Seq<char>>> {
    groups.map_values(|g: Vec<String>| texts(g@))
}

/// Whether every listed size is one a file can have: `i64::MAX` bytes at most, as `off_t` counts.
pub open spec fn sizes_fit(listing: Map<Seq<char>, Seen>) -> bool {
    forall|p: Seq<char>| #[trigger] listing.contains_key(p) ==> listing[p].size <= i64::MAX as u64
}

/// The files to hash, grouped into uploads that fit in memory, in order.
pub fn batches(paths: Vec<String>, listing: &PathMap<Seen>) -> (groups: Vec<Vec<String>>)
    requires
        sizes_fit(listing@),
    ensures
        group_texts(groups@) == grouped(texts(paths@), listing@).0,
{
    let ghost ps = texts(paths@);
    let mut groups: Vec<Vec<String>> = Vec::new();
    let mut current: Vec<String> = Vec::new();
    let mut bytes: u64 = 0;
    let mut i: usize = 0;
    while i < paths.len()
        invariant
            i <= paths@.len(),
            ps == texts(paths@),
            sizes_fit(listing@),
            bytes <= i64::MAX as u64,
            i == 0 ==> groups@.len() == 0 && current@.len() == 0,
            i > 0 ==> current@.len() > 0 && group_texts(groups@).push(texts(current@)) == grouped(ps.take(i as int), listing@).0,
            i > 0 ==> bytes == grouped(ps.take(i as int), listing@).1,
        decreases paths@.len() - i,
    {
        let path = paths[i].clone();
        let size: u64 = match listing.get(path.as_str()) {
            Some(seen) => seen.size,
            None => 0,
        };
        let ghost prev = grouped(ps.take(i as int), listing@);
        proof {
            assert(ps.take(i + 1).drop_last() =~= ps.take(i as int));
            assert(ps.take(i + 1).last() == path@);
            assert(size == listed_size(listing@, path@));
        }
        if i > 0 && bytes + size <= BATCH_BYTES {
            let ghost cur_before = current@;
            current.push(path);
            bytes = bytes + size;
            proof {
                assert(texts(current@) =~= texts(cur_before).push(ps[i as int]));
                assert(group_texts(groups@).push(texts(current@)) =~= prev.0.update(prev.0.len() - 1, prev.0.last().push(ps[i as int])));
            }
        } else {
            if i > 0 {
                let mut finished: Vec<String> = Vec::new();
                std::mem::swap(&mut finished, &mut current);
                let ghost g_before = groups@;
                groups.push(finished);
                assert(group_texts(groups@) =~= group_texts(g_before).push(texts(finished@)));
            }
            current.push(path);
            bytes = size;
            proof {
                assert(texts(current@) =~= seq![ps[i as int]]);
                if i == 0 {
                    assert(prev.0.len() == 0);
                    assert(group_texts(groups@) =~= Seq::<Seq<Seq<char>>>::empty());
                }
                assert(group_texts(groups@).push(texts(current@)) =~= prev.0.push(seq![ps[i as int]]));
            }
        }
        i = i + 1;
    }
    if i > 0 {
        let ghost g_before = groups@;
        groups.push(current);
        assert(group_texts(groups@) =~= group_texts(g_before).push(texts(current@)));
    } else {
        assert(group_texts(groups@) =~= Seq::<Seq<Seq<char>>>::empty());
    }
    assert(ps.take(ps.len() as int) =~= ps);
    groups
}


// ---------------------------------------------------------------------------------------------
// A round
// ---------------------------------------------------------------------------------------------

/// One round's decisions: the files to hash now, and the files gone since they were last sent.
#[derive(Debug, PartialEq, Eq)]
pub struct Round {
    pub hash: Vec<String>,
    pub deleted: Vec<String>,
}

/// Whether a file refused at `at` still waits at `now`: less than [`RETRY_NANOS`] has passed, an
/// earlier `now` counting as no time at all.
pub open spec fn still_refused(at: u64, now: u64) -> bool {
    now < at || now - at < RETRY_NANOS
}

/// The watch a listed file starts with when it has none: as seen, when its size and modification
/// time are what was last sent, so a restart sends nothing for having noticed it; unseen
/// otherwise, so it is hashed once it has settled.
pub open spec fn first_watch(known: Map<Seq<char>, Known>, path: Seq<char>, seen: Seen) -> WatchState {
    WatchState {
        last: if known.contains_key(path) && known[path].size == seen.size && known[path].modified_ms
            == stamp_of(seen) {
            Some(seen)
        } else {
            None
        },
        changed_at: None,
    }
}

/// The watch a listed file's look is taken against: the one it has, unless its refusal has run
/// out, in which case, as for a file with none, it starts afresh.
pub open spec fn watch_for(
    known: Map<Seq<char>, Known>,
    watches: Map<Seq<char>, Watch>,
    refused: Map<Seq<char>, u64>,
    now: u64,
    path: Seq<char>,
    seen: Seen,
) -> WatchState {
    if watches.contains_key(path) && !(refused.contains_key(path) && !still_refused(refused[path], now)) {
        watches[path]@
    } else {
        first_watch(known, path, seen)
    }
}

/// A listed file's look this round: its watch afterwards, and the verdict.
pub open spec fn look_at(
    known: Map<Seq<char>, Known>,
    watches: Map<Seq<char>, Watch>,
    refused: Map<Seq<char>, u64>,
    now: u64,
    path: Seq<char>,
    seen: Seen,
) -> (WatchState, Verdict) {
    poll_spec(watch_for(known, watches, refused, now, path, seen), now, Some(seen))
}

/// The listed files whose look says to hash them, in the listing's order.
pub open spec fn to_hash(
    known: Map<Seq<char>, Known>,
    watches: Map<Seq<char>, Watch>,
    refused: Map<Seq<char>, u64>,
    now: u64,
    listing: Seq<(Seq<char>, Seen)>,
) -> Seq<Seq<char>>
    decreases listing.len(),
{
    if listing.len() == 0 {
        seq![]
    } else {
        let e = listing.last();
        to_hash(known, watches, refused, now, listing.drop_last()) + (if look_at(
            known,
            watches,
            refused,
            now,
            e.0,
            e.1,
        ).1 == Verdict::Hash {
            seq![e.0]
        } else {
            seq![]
        })
    }
}

/// The paths last sent that the listing no longer holds, in the order they were sent under.
pub open spec fn gone(sent: Seq<Seq<char>>, listing: Map<Seq<char>, Seen>) -> Seq<Seq<char>>
    decreases sent.len(),
{
    if sent.len() == 0 {
        seq![]
    } else {
        gone(sent.drop_last(), listing) + (if listing.contains_key(sent.last()) {
            seq![]
        } else {
            seq![sent.last()]
        })
    }
}

/// The refusals still waiting: those of files still listed whose wait has not run out, in order.
pub open spec fn waiting(
    refused: Seq<(Seq<char>, u64)>,
    listing: Map<Seq<char>, Seen>,
    now: u64,
) -> Seq<(Seq<char>, u64)>
    decreases refused.len(),
{
    if refused.len() == 0 {
        seq![]
    } else {
        let e = refused.last();
        waiting(refused.drop_last(), listing, now) + (if listing.contains_key(e.0) && still_refused(
            e.1,
            now,
        ) {
            seq![e]
        } else {
            seq![]
        })
    }
}

/// The round, decided from this listing, what was last sent, each file's watch, and when each
/// refused file was refused.
///
/// Afterwards there is a watch for each listed file and for nothing else, each the one its look
/// left; and only the refusals still waiting remain.
pub fn plan(
    known: &PathMap<Known>,
    listing: &PathMap<Seen>,
    watches: &mut PathMap<Watch>,
    refused: &mut PathMap<u64>,
    now: u64,
) -> (round: Round)
    ensures
        texts(round.hash@) == to_hash(known@, old(watches)@, old(refused)@, now, listing.pairs()),
        texts(round.deleted@) == gone(known.keys(), listing@),
        final(watches).keys() == listing.keys(),
        forall|i: int|
            0 <= i < listing.pairs().len() ==> (#[trigger] final(watches).pairs()[i]).1@ == look_at(
                known@,
                old(watches)@,
                old(refused)@,
                now,
                listing.pairs()[i].0,
                listing.pairs()[i].1,
            ).0,
        final(refused).pairs() == waiting(old(refused).pairs(), listing@, now),
{
    listing.keys_sorted();
    refused.keys_sorted();
    let ghost w0 = watches@;
    let ghost r0 = refused@;
    let ghost rp = refused.pairs();
    let ghost lp = listing.pairs();

    // The refusals still waiting, in order.
    let mut still: PathMap<u64> = PathMap::new();
    let ghost mut last_kept: int = -1;
    let mut i: usize = 0;
    while i < refused.len()
        invariant
            i <= rp.len(),
            rp == refused.pairs(),
            crate::path_map::sorted(keys_of(rp)),
            still.pairs() == waiting(rp.take(i as int), listing@, now),
            still.pairs().len() == 0 || (0 <= last_kept < i && still.keys().last() == keys_of(rp)[last_kept]),
        decreases rp.len() - i,
    {
        let path = refused.key_at(i);
        let at = *refused.value_at(i);
        proof {
            assert(rp.take(i + 1).drop_last() =~= rp.take(i as int));
            assert(rp.take(i + 1).last() == rp[i as int]);
            assert(keys_of(rp)[i as int] == rp[i as int].0);
        }
        if listing.contains_key(path.as_str()) && (now < at || now - at < RETRY_NANOS) {
            proof {
                if still.pairs().len() > 0 {
                    assert(key_before(keys_of(rp)[last_kept], keys_of(rp)[i as int]));
                }
            }
            still.push(path.clone(), at);
            proof {
                last_kept = i as int;
            }
        }
        i = i + 1;
    }
    proof {
        assert(rp.take(rp.len() as int) =~= rp);
    }

    // A watch for each listed file, and the files to hash.
    let mut fresh: PathMap<Watch> = PathMap::new();
    let mut hash: Vec<String> = Vec::new();
    let mut j: usize = 0;
    while j < listing.len()
        invariant
            j <= lp.len(),
            lp == listing.pairs(),
            crate::path_map::sorted(keys_of(lp)),
            w0 == watches@,
            r0 == refused@,
            fresh.keys() == keys_of(lp).take(j as int),
            forall|m: int| 0 <= m < j ==> (#[trigger] fresh.pairs()[m]).1@ == look_at(known@, w0, r0, now, lp[m].0, lp[m].1).0,
            texts(hash@) == to_hash(known@, w0, r0, now, lp.take(j as int)),
        decreases lp.len() - j,
    {
        let path = listing.key_at(j);
        let seen = *listing.value_at(j);
        let expired = match refused.get(path.as_str()) {
            Some(at) => !(now < *at || now - *at < RETRY_NANOS),
            None => false,
        };
        let mut watch = match (if expired { None } else { watches.get(path.as_str()) }) {
            Some(w) => *w,
            None => {
                let unchanged = match known.get(path.as_str()) {
                    Some(sent) => sent.size == seen.size && sent.modified_ms == stamp(&seen),
                    None => false,
                };
                Watch::new(if unchanged { Some(seen) } else { None })
            },
        };
        proof {
            assert(lp[j as int] == (path@, seen));
            assert(watch@ == watch_for(known@, w0, r0, now, path@, seen));
        }
        let verdict = watch.poll(now, Some(seen));
        let ghost fresh_before = fresh.pairs();
        proof {
            assert(keys_of(lp)[j as int] == path@);
            if j > 0 {
                assert(fresh.keys().last() == keys_of(lp)[j - 1]);
                assert(key_before(keys_of(lp)[j - 1], keys_of(lp)[j as int]));
            }
        }
        fresh.push(path.clone(), watch);
        let ghost hash_before = hash@;
        if verdict == Verdict::Hash {
            hash.push(path.clone());
        }
        proof {
            assert(lp.take(j + 1).drop_last() =~= lp.take(j as int));
            assert(lp.take(j + 1).last() == (path@, seen));
            assert(fresh.keys() =~= keys_of(lp).take(j + 1));
            assert forall|m: int| 0 <= m < j + 1 implies (#[trigger] fresh.pairs()[m]).1@ == look_at(known@, w0, r0, now, lp[m].0, lp[m].1).0 by {
                if m < j {
                    assert(fresh.pairs()[m] == fresh_before[m]);
                }
            }
            if verdict == Verdict::Hash {
                assert(texts(hash@) =~= texts(hash_before).push(path@));
            } else {
                assert(hash@ == hash_before);
            }
            assert(texts(hash@) =~= to_hash(known@, w0, r0, now, lp.take(j + 1)));
        }
        j = j + 1;
    }
    proof {
        assert(lp.take(lp.len() as int) =~= lp);
        assert(keys_of(lp).take(lp.len() as int) =~= keys_of(lp));
    }

    // What was sent and is no longer listed.
    let mut deleted: Vec<String> = Vec::new();
    let ghost kk = known.keys();
    let mut q: usize = 0;
    while q < known.len()
        invariant
            q <= kk.len(),
            kk == known.keys(),
            kk.len() == known.pairs().len(),
            texts(deleted@) == gone(kk.take(q as int), listing@),
        decreases kk.len() - q,
    {
        let path = known.key_at(q);
        let ghost before = deleted@;
        let listed = listing.contains_key(path.as_str());
        if !listed {
            deleted.push(path.clone());
        }
        proof {
            assert(kk[q as int] == path@);
            assert(kk.take(q + 1).drop_last() =~= kk.take(q as int));
            assert(kk.take(q + 1).last() == path@);
            if !listed {
                assert(texts(deleted@) =~= texts(before).push(path@));
            } else {
                assert(deleted@ == before);
            }
            assert(texts(deleted@) =~= gone(kk.take(q + 1), listing@));
        }
        q = q + 1;
    }
    proof {
        assert(kk.take(kk.len() as int) =~= kk);
    }
    *watches = fresh;
    *refused = still;
    Round { hash, deleted }
}


// ---------------------------------------------------------------------------------------------
// What holds of every round
// ---------------------------------------------------------------------------------------------

/// After a restart nothing unchanged is sent: with no watches yet and every listed file at the
/// size and modification time last sent, no file is hashed.
pub proof fn restart_sends_nothing_unchanged(
    known: Map<Seq<char>, Known>,
    refused: Map<Seq<char>, u64>,
    now: u64,
    listing: Seq<(Seq<char>, Seen)>,
)
    requires
        forall|i: int|
            0 <= i < listing.len() ==> {
                let (p, s) = #[trigger] listing[i];
                known.contains_key(p) && known[p].size == s.size && known[p].modified_ms
                    == stamp_of(s)
            },
    ensures
        to_hash(known, Map::empty(), refused, now, listing) == Seq::<Seq<char>>::empty(),
    decreases listing.len(),
{
    if listing.len() > 0 {
        let e = listing.last();
        assert(listing[listing.len() - 1] == e);
        assert forall|i: int| 0 <= i < listing.drop_last().len() implies {
            let (p, s) = #[trigger] listing.drop_last()[i];
            known.contains_key(p) && known[p].size == s.size && known[p].modified_ms == stamp_of(s)
        } by {
            assert(listing.drop_last()[i] == listing[i]);
        }
        restart_sends_nothing_unchanged(known, refused, now, listing.drop_last());
        assert(look_at(known, Map::empty(), refused, now, e.0, e.1).1 == Verdict::Wait);
        assert(to_hash(known, Map::empty(), refused, now, listing) =~= Seq::<Seq<char>>::empty());
    }
}

/// The paths of what was sent.
pub open spec fn sent_paths(sent: Seq<(Seq<char>, Known)>) -> Seq<Seq<char>> {
    sent.map_values(|e: (Seq<char>, Known)| e.0)
}

/// Settling an upload: a path it did not send is left as it was; a sent path the library refused
/// waits from `now` and what was last sent for it is unchanged; a sent path it kept is recorded
/// and no longer waits.
pub proof fn settled_paths(
    known: Map<Seq<char>, Known>,
    refused: Map<Seq<char>, u64>,
    sent: Seq<(Seq<char>, Known)>,
    refusals: Seq<Seq<char>>,
    now: u64,
    p: Seq<char>,
)
    ensures
        ({
            let (k2, r2) = settled_maps(known, refused, sent, refusals, now);
            &&& !sent_paths(sent).contains(p) ==> k2.contains_key(p) == known.contains_key(p) && (
            known.contains_key(p) ==> k2[p] == known[p]) && r2.contains_key(p)
                == refused.contains_key(p) && (refused.contains_key(p) ==> r2[p] == refused[p])
            &&& sent_paths(sent).contains(p) && refusals.contains(p) ==> r2.contains_key(p) && r2[p]
                == now && k2.contains_key(p) == known.contains_key(p) && (known.contains_key(p)
                ==> k2[p] == known[p])
            &&& sent_paths(sent).contains(p) && !refusals.contains(p) ==> k2.contains_key(p)
                && !r2.contains_key(p)
        }),
    decreases sent.len(),
{
    if sent.len() > 0 {
        settled_paths(known, refused, sent.drop_last(), refusals, now, p);
        let q = sent.last().0;
        assert(sent_paths(sent) =~= sent_paths(sent.drop_last()).push(q));
        assert(sent_paths(sent).contains(p) <==> (sent_paths(sent.drop_last()).contains(p) || p
            == q)) by {
            if sent_paths(sent).contains(p) && p != q {
                let j = choose|j: int| 0 <= j < sent_paths(sent).len() && sent_paths(sent)[j] == p;
                assert(j < sent_paths(sent).len() - 1);
                assert(sent_paths(sent.drop_last())[j] == p);
            }
            if sent_paths(sent.drop_last()).contains(p) {
                let j = choose|j: int| 0 <= j < sent_paths(sent.drop_last()).len() && sent_paths(sent.drop_last())[j] == p;
                assert(sent_paths(sent)[j] == p);
            }
            if p == q {
                assert(sent_paths(sent)[sent_paths(sent).len() - 1] == p);
            }
        }
    }
}

/// The uploads one after another.
pub open spec fn concat_groups(groups: Seq<Seq<Seq<char>>>) -> Seq<Seq<char>>
    decreases groups.len(),
{
    if groups.len() == 0 {
        seq![]
    } else {
        concat_groups(groups.drop_last()) + groups.last()
    }
}

/// What an upload's files weigh in the listing.
pub open spec fn group_size(group: Seq<Seq<char>>, listing: Map<Seq<char>, Seen>) -> int
    decreases group.len(),
{
    if group.len() == 0 {
        0
    } else {
        group_size(group.drop_last(), listing) + listed_size(listing, group.last())
    }
}

/// Grouping into uploads keeps every file, once and in order; no upload is empty; and an upload
/// of more than one file stays within [`BATCH_BYTES`], so only a file larger than that on its own
/// goes up alone over it.
pub proof fn uploads_keep_every_file(paths: Seq<Seq<char>>, listing: Map<Seq<char>, Seen>)
    ensures
        ({
            let (groups, last) = grouped(paths, listing);
            &&& concat_groups(groups) == paths
            &&& forall|i: int| 0 <= i < groups.len() ==> (#[trigger] groups[i]).len() > 0
            &&& forall|i: int|
                0 <= i < groups.len() ==> (#[trigger] groups[i]).len() == 1 || group_size(
                    groups[i],
                    listing,
                ) <= BATCH_BYTES
            &&& groups.len() > 0 ==> last == group_size(groups.last(), listing)
        }),
    decreases paths.len(),
{
    if paths.len() > 0 {
        uploads_keep_every_file(paths.drop_last(), listing);
        let before = grouped(paths.drop_last(), listing);
        let path = paths.last();
        let size = listed_size(listing, path);
        let groups = grouped(paths, listing).0;
        if before.0.len() > 0 && before.1 + size <= BATCH_BYTES {
            let g = before.0.last().push(path);
            assert(g.drop_last() =~= before.0.last());
            assert(groups.drop_last() =~= before.0.drop_last());
            assert(concat_groups(groups) =~= concat_groups(before.0) + seq![path]) by {
                assert(concat_groups(before.0) == concat_groups(before.0.drop_last()) + before.0.last());
            }
            assert(paths =~= paths.drop_last() + seq![path]);
            assert forall|i: int| 0 <= i < groups.len() implies (#[trigger] groups[i]).len() == 1
                || group_size(groups[i], listing) <= BATCH_BYTES by {
                if i < groups.len() - 1 {
                    assert(groups[i] == before.0[i]);
                }
            }
        } else {
            assert(groups.drop_last() =~= before.0);
            assert(paths =~= paths.drop_last() + seq![path]);
            let g = seq![path];
            assert(g.drop_last() =~= Seq::<Seq<char>>::empty());
            assert(group_size(Seq::<Seq<char>>::empty(), listing) == 0);
            assert(g.last() == path);
            assert(group_size(g, listing) == size);
        }
    }
}

/// Every path refused was one the upload committed.
pub proof fn refusals_were_committed(committed: Seq<Seq<char>>, batch: Option<Batch>, p: Seq<char>)
    requires
        refused_paths(committed, batch).contains(p),
    ensures
        committed.contains(p),
{
    if let Some(b) = batch {
        if failures_matched(committed, b) {
            lemma_named_within(committed, failed_paths(b), p);
        }
    }
}

proof fn lemma_named_within(paths: Seq<Seq<char>>, named: Seq<Seq<char>>, p: Seq<char>)
    requires
        paths_named(paths, named).contains(p),
    ensures
        paths.contains(p),
    decreases paths.len(),
{
    if paths.len() > 0 {
        let rest = paths_named(paths.drop_last(), named);
        if rest.contains(p) {
            lemma_named_within(paths.drop_last(), named, p);
            let j = choose|j: int| 0 <= j < paths.drop_last().len() && paths.drop_last()[j] == p;
            assert(paths[j] == p);
        } else {
            let k = choose|k: int| 0 <= k < paths_named(paths, named).len() && paths_named(paths, named)[k] == p;
            assert(k >= rest.len());
            assert(paths[paths.len() - 1] == p);
        }
    }
}

/// A file found with no watch is hashed once it has settled unless it is at the size and
/// modification time last sent: its first look always waits, and a look at the same file
/// [`SETTLE_NANOS`] or more later hashes it exactly when either differs from what was sent, or
/// nothing was sent for it.
pub proof fn a_file_changed_since_it_was_sent_is_hashed_once_settled(
    known: Map<Seq<char>, Known>,
    watches: Map<Seq<char>, Watch>,
    refused: Map<Seq<char>, u64>,
    now: u64,
    later: u64,
    path: Seq<char>,
    seen: Seen,
)
    requires
        !watches.contains_key(path),
        crate::watch::settled(now, later),
    ensures
        look_at(known, watches, refused, now, path, seen).1 == Verdict::Wait,
        (poll_spec(look_at(known, watches, refused, now, path, seen).0, later, Some(seen)).1
            == Verdict::Hash) <==> !(known.contains_key(path) && known[path].size == seen.size
            && known[path].modified_ms == stamp_of(seen)),
{
}

} // verus!
