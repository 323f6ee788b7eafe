//! When a saved file is worth hashing, as a state machine over what each look at it found.
//!
//! The agent looks at one file's size and modification time every [`POLL_NANOS`]; this decides
//! when a change has sat still for [`SETTLE_NANOS`]. Time is a parameter: a moment is a count
//! of nanoseconds on the agent's monotonic clock, so the same looks give the same verdicts.

use vstd::prelude::*;
use crate::digest::{blake3_hex, blake3_hex_of};

verus! {

/// How often the agent looks, in nanoseconds: half a second.
pub const POLL_NANOS: u64 = 500_000_000;

/// How long a file must sit unchanged before it is hashed, in nanoseconds: two seconds.
pub const SETTLE_NANOS: u64 = 2_000_000_000;

/// One look at a file: its size, and its modification time in nanoseconds since the Unix
/// epoch (negative before it). A missing file is `None` where a look is taken.
#[derive(Debug, Clone, Copy, PartialEq, Eq, Structural)]
pub struct Seen {
    pub size: u64,
    pub modified_nanos: i128,
}

/// What one look decides.
#[derive(Debug, Clone, Copy, PartialEq, Eq, Structural)]
pub enum Verdict {
    /// Nothing new, or a change still settling.
    Wait,
    /// The file changed and has now been still for [`SETTLE_NANOS`]: hash it.
    Hash,
}

/// What a watch remembers: the last look, and when the file last moved, if it has moved since
/// it was last hashed.
pub struct WatchState {
    pub last: Option<Seen>,
    pub changed_at: Option<u64>,
}

/// One file's watch.
#[derive(Debug, Clone, Copy)]
pub struct Watch {
    last: Option<Seen>,
    changed_at: Option<u64>,
}

impl View for Watch {
    type V = WatchState;

    closed spec fn view(&self) -> WatchState {
        WatchState { last: self.last, changed_at: self.changed_at }
    }
}

/// Whether `later` is at least [`SETTLE_NANOS`] after `at`; an earlier `later` is no time at
/// all, as `Instant::duration_since` saturates.
pub open spec fn settled(at: u64, later: u64) -> bool {
    later >= at && later - at >= SETTLE_NANOS
}

/// What one look decides, and the watch it leaves: the wait starts over whenever the file moves,
/// and a file present and unmoving for [`SETTLE_NANOS`] after it moved gets a single `Hash`.
pub open spec fn poll_spec(w: WatchState, now: u64, seen: Option<Seen>) -> (WatchState, Verdict) {
    if seen != w.last {
        (WatchState { last: seen, changed_at: Some(now) }, Verdict::Wait)
    } else if w.changed_at is Some && w.last is Some && settled(w.changed_at->0, now) {
        (WatchState { last: w.last, changed_at: None }, Verdict::Hash)
    } else {
        (w, Verdict::Wait)
    }
}

fn same_look(a: &Option<Seen>, b: &Option<Seen>) -> (r: bool)
    ensures
        r == (*a == *b),
{
    match (a, b) {
        (None, None) => true,
        (Some(x), Some(y)) => x.size == y.size && x.modified_nanos == y.modified_nanos,
        _ => false,
    }
}

impl Watch {
    /// Starts from what the file looks like now, so a file that was already there is not hashed
    /// for having been noticed.
    pub fn new(seen: Option<Seen>) -> (w: Self)
        ensures
            w@ == (WatchState { last: seen, changed_at: None }),
    {
        Watch { last: seen, changed_at: None }
    }

    /// One look at the file, at `now`.
    pub fn poll(&mut self, now: u64, seen: Option<Seen>) -> (v: Verdict)
        ensures
            (final(self)@, v) == poll_spec(old(self)@, now, seen),
    {
        if !same_look(&seen, &self.last) {
            self.last = seen;
            self.changed_at = Some(now);
            return Verdict::Wait;
        }
        match self.changed_at {
            Some(at) => {
                if self.last.is_some() && now >= at && now - at >= SETTLE_NANOS {
                    self.changed_at = None;
                    Verdict::Hash
                } else {
                    Verdict::Wait
                }
            },
            None => Verdict::Wait,
        }
    }
}

/// Hash before believing anything: the new BLAKE3, in hex, when the bytes differ from the
/// revision `known` names, and `None` when an editor only touched the file.
pub fn changed(known: &str, bytes: &[u8]) -> (r: Option<String>)
    ensures
        match r {
            Some(h) => h@ == blake3_hex(bytes@) && h@ != known@,
            None => blake3_hex(bytes@) == known@,
        },
{
    let hash = blake3_hex_of(bytes);
    if crate::text::same_text(hash.as_str(), known) {
        None
    } else {
        Some(hash)
    }
}

/// A file nobody touches is never hashed: a watch that has seen the file and holds no
/// unsettled change waits, and stays as it was, for every look that finds the file the same.
pub proof fn untouched_file_waits(w: WatchState, now: u64)
    requires
        w.changed_at is None,
    ensures
        poll_spec(w, now, w.last) == (w, Verdict::Wait),
{
}

/// Any movement restarts the wait: a look that differs from the last one never hashes, and
/// dates the change to that look.
pub proof fn movement_restarts_the_wait(w: WatchState, now: u64, seen: Option<Seen>)
    requires
        seen != w.last,
    ensures
        poll_spec(w, now, seen).1 == Verdict::Wait,
        poll_spec(w, now, seen).0.changed_at == Some(now),
        poll_spec(w, now, seen).0.last == seen,
{
}

/// A hash is owed only for a file that is there and has been still for the settle time: a
/// verdict of `Hash` means this look matches the last, the file exists, and the change it
/// settles was at least [`SETTLE_NANOS`] ago.
pub proof fn hash_only_when_settled(w: WatchState, now: u64, seen: Option<Seen>)
    requires
        poll_spec(w, now, seen).1 == Verdict::Hash,
    ensures
        seen == w.last,
        seen is Some,
        w.changed_at is Some,
        settled(w.changed_at->0, now),
{
}

/// A settled change is hashed once: after a `Hash`, any later look that finds the file the same
/// waits.
pub proof fn hashed_once(w: WatchState, now: u64, later: u64, seen: Option<Seen>)
    requires
        poll_spec(w, now, seen).1 == Verdict::Hash,
    ensures
        poll_spec(poll_spec(w, now, seen).0, later, seen).1 == Verdict::Wait,
{
}

/// A change that stays still is hashed once the settle time has passed since it was seen: a
/// look that moves the file, followed by a look at the same file [`SETTLE_NANOS`] later or more,
/// hashes it.
pub proof fn still_change_is_hashed(w: WatchState, at: u64, later: u64, s: Seen)
    requires
        Some(s) != w.last,
        settled(at, later),
    ensures
        poll_spec(poll_spec(w, at, Some(s)).0, later, Some(s)).1 == Verdict::Hash,
{
}

/// A run of looks at the times given, each finding `seen`: the watch afterwards and the verdicts.
pub open spec fn polls(w: WatchState, times: Seq<u64>, seen: Option<Seen>) -> (WatchState, Seq<Verdict>)
    decreases times.len(),
{
    if times.len() == 0 {
        (w, seq![])
    } else {
        let before = polls(w, times.drop_last(), seen);
        let step = poll_spec(before.0, times.last(), seen);
        (step.0, before.1.push(step.1))
    }
}

/// A file nobody touches is never hashed, however many looks find it the same: a watch that has
/// seen the file and holds no unsettled change waits at every one and stays as it was.
pub proof fn untouched_file_never_hashed(w: WatchState, times: Seq<u64>)
    requires
        w.changed_at is None,
    ensures
        polls(w, times, w.last).0 == w,
        polls(w, times, w.last).1.len() == times.len(),
        forall|i: int| 0 <= i < times.len() ==> #[trigger] polls(w, times, w.last).1[i] == Verdict::Wait,
    decreases times.len(),
{
    if times.len() > 0 {
        untouched_file_never_hashed(w, times.drop_last());
        let before = polls(w, times.drop_last(), w.last);
        let after = polls(w, times, w.last);
        assert(after.1 == before.1.push(Verdict::Wait));
        assert forall|i: int| 0 <= i < times.len() implies #[trigger] after.1[i] == Verdict::Wait by {
            if i < times.len() - 1 {
                assert(after.1[i] == before.1[i]);
            }
        }
    }
}

/// The look the `i`th of `looks` is compared with: the one before it, or for the first, the look
/// the watch started from.
pub open spec fn look_before(start: Option<Seen>, looks: Seq<(u64, Option<Seen>)>, i: int) -> Option<Seen> {
    if i == 0 {
        start
    } else {
        looks[i - 1].1
    }
}

/// Whether the `i`th look found the file moved: unequal to the look before it.
pub open spec fn moved_at(start: Option<Seen>, looks: Seq<(u64, Option<Seen>)>, i: int) -> bool {
    looks[i].1 != look_before(start, looks, i)
}

/// The latest look of all, or the starting one when there has been none.
pub open spec fn last_look(start: Option<Seen>, looks: Seq<(u64, Option<Seen>)>) -> Option<Seen> {
    if looks.len() == 0 {
        start
    } else {
        looks.last().1
    }
}

/// A watch started from `start`, then given each look of `looks` at its time: the watch it
/// leaves, and each look's verdict.
pub open spec fn history(start: Option<Seen>, looks: Seq<(u64, Option<Seen>)>) -> (WatchState, Seq<Verdict>)
    decreases looks.len(),
{
    if looks.len() == 0 {
        (WatchState { last: start, changed_at: None }, seq![])
    } else {
        let before = history(start, looks.drop_last());
        let step = poll_spec(before.0, looks.last().0, looks.last().1);
        (step.0, before.1.push(step.1))
    }
}

/// The index of the latest look that found the file moved, if any did.
pub open spec fn latest_move(start: Option<Seen>, looks: Seq<(u64, Option<Seen>)>) -> Option<int>
    decreases looks.len(),
{
    if looks.len() == 0 {
        None
    } else if moved_at(start, looks, looks.len() - 1) {
        Some(looks.len() - 1)
    } else {
        latest_move(start, looks.drop_last())
    }
}

/// Whether a change is pending: some look found the file moved, and no look since the latest
/// such one was answered `Hash`.
pub open spec fn change_pending(start: Option<Seen>, looks: Seq<(u64, Option<Seen>)>) -> bool {
    latest_move(start, looks) matches Some(k) && forall|j: int|
        k <= j < looks.len() ==> #[trigger] history(start, looks).1[j] != Verdict::Hash
}

/// What a watch holds after any history: the latest look, and the time of the latest move
/// exactly while a change is pending.
proof fn lemma_history_state(start: Option<Seen>, looks: Seq<(u64, Option<Seen>)>)
    ensures
        history(start, looks).1.len() == looks.len(),
        latest_move(start, looks) matches Some(k) ==> 0 <= k < looks.len(),
        history(start, looks).0 == (WatchState {
            last: last_look(start, looks),
            changed_at: if change_pending(start, looks) {
                Some(looks[latest_move(start, looks)->0].0)
            } else {
                None
            },
        }),
    decreases looks.len(),
{
    if looks.len() > 0 {
        let n = looks.len() - 1;
        let front = looks.drop_last();
        lemma_history_state(start, front);
        let before = history(start, front);
        let (t, s) = looks.last();
        let after = history(start, looks);
        assert(look_before(start, looks, n) == last_look(start, front)) by {
            if n > 0 {
                assert(front.last() == looks[n - 1]);
            }
        }
        assert forall|j: int| 0 <= j < n implies #[trigger] after.1[j] == before.1[j] by {}
        assert forall|j: int| 0 <= j < n implies #[trigger] front[j] == looks[j] by {}
        if moved_at(start, looks, n) {
            assert(after.1[n] == Verdict::Wait);
            assert(change_pending(start, looks));
        } else {
            assert(s == before.0.last);
            match latest_move(start, front) {
                None => {
                    assert(!change_pending(start, front));
                    assert(!change_pending(start, looks));
                },
                Some(k) => {
                    if after.1[n] == Verdict::Hash {
                        assert(!change_pending(start, looks));
                    } else {
                        assert(change_pending(start, looks) == change_pending(start, front)) by {
                            if change_pending(start, front) {
                                assert forall|j: int| k <= j < looks.len() implies #[trigger] after.1[j]
                                    != Verdict::Hash by {
                                    if j < n {
                                        assert(before.1[j] != Verdict::Hash);
                                    }
                                }
                            }
                            if change_pending(start, looks) {
                                assert forall|j: int| k <= j < front.len() implies #[trigger] before.1[j]
                                    != Verdict::Hash by {
                                    assert(after.1[j] != Verdict::Hash);
                                }
                            }
                        }
                    }
                },
            }
        }
    }
}

/// A watch hashes exactly when a pending change has settled: whatever looks it was given, the
/// next one at `now` is answered `Hash` if and only if it finds the file as the latest look did,
/// the file is there, a change is pending, and [`SETTLE_NANOS`] have passed since the latest look
/// that found the file moved. A look that finds the file moved waits and becomes that latest
/// move, and after a `Hash` no change is pending.
pub proof fn hashed_when_a_pending_change_settles(
    start: Option<Seen>,
    looks: Seq<(u64, Option<Seen>)>,
    now: u64,
    seen: Option<Seen>,
)
    ensures
        (poll_spec(history(start, looks).0, now, seen).1 == Verdict::Hash) <==> (seen == last_look(
            start,
            looks,
        ) && seen is Some && change_pending(start, looks) && settled(
            looks[latest_move(start, looks)->0].0,
            now,
        )),
        seen != last_look(start, looks) ==> poll_spec(history(start, looks).0, now, seen).1
            == Verdict::Wait && latest_move(start, looks.push((now, seen))) == Some(looks.len() as int)
            && change_pending(start, looks.push((now, seen))),
        poll_spec(history(start, looks).0, now, seen).1 == Verdict::Hash ==> !change_pending(
            start,
            looks.push((now, seen)),
        ),
{
    lemma_history_state(start, looks);
    let more = looks.push((now, seen));
    lemma_history_state(start, more);
    assert(more.drop_last() =~= looks);
    assert(more.last() == (now, seen));
}

} // verus!
