use lapidary::watch::{changed, Seen, Verdict, Watch, POLL_NANOS, SETTLE_NANOS};

/// A look at a file of `size` bytes modified `modified` seconds after the epoch.
fn seen(size: u64, modified: u64) -> Option<Seen> {
    Some(Seen { size, modified_nanos: modified as i128 * 1_000_000_000 })
}

/// Some moment on the agent's clock.
const START: u64 = 1_000_000_000_000;

#[test]
fn a_file_nobody_touches_is_never_hashed() {
    let start = START;
    let mut watch = Watch::new(seen(184_342, 100));
    for tick in 0..20u64 {
        assert_eq!(watch.poll(start + POLL_NANOS * tick, seen(184_342, 100)), Verdict::Wait);
    }
}

#[test]
fn a_save_is_hashed_once_after_it_has_settled() {
    let start = START;
    let mut watch = Watch::new(seen(184_342, 100));
    assert_eq!(watch.poll(start, seen(202_776, 160)), Verdict::Wait, "just changed");
    assert_eq!(
        watch.poll(start + 1_500_000_000, seen(202_776, 160)),
        Verdict::Wait,
        "not settled yet"
    );
    assert_eq!(watch.poll(start + SETTLE_NANOS, seen(202_776, 160)), Verdict::Hash);
    assert_eq!(
        watch.poll(start + SETTLE_NANOS + POLL_NANOS, seen(202_776, 160)),
        Verdict::Wait,
        "and only once"
    );
}

#[test]
fn a_write_still_going_restarts_the_wait() {
    let start = START;
    let mut watch = Watch::new(seen(0, 100));
    assert_eq!(watch.poll(start, seen(8_192, 101)), Verdict::Wait, "a write just seen is not hashed");
    let still_growing = start + 1_500_000_000;
    assert_eq!(
        watch.poll(still_growing, seen(65_536, 102)),
        Verdict::Wait,
        "nor is one still growing"
    );
    assert_eq!(
        watch.poll(start + SETTLE_NANOS, seen(65_536, 102)),
        Verdict::Wait,
        "two seconds from the first change is not two seconds of stillness"
    );
    assert_eq!(watch.poll(still_growing + SETTLE_NANOS, seen(65_536, 102)), Verdict::Hash);
}

#[test]
fn a_file_mid_rename_is_hashed_only_once_it_is_back_and_still() {
    let start = START;
    let mut watch = Watch::new(seen(184_342, 100));
    assert_eq!(watch.poll(start, None), Verdict::Wait, "the file just went away");
    assert_eq!(watch.poll(start + SETTLE_NANOS, None), Verdict::Wait, "nothing to hash while it is gone");
    let back = start + SETTLE_NANOS + POLL_NANOS;
    watch.poll(back, seen(202_776, 160));
    assert_eq!(watch.poll(back + SETTLE_NANOS, seen(202_776, 160)), Verdict::Hash);
}

#[test]
fn a_touch_that_changes_no_bytes_is_not_a_save() {
    let bytes = b"solid flange\nendsolid flange\n";
    let known = blake3::hash(bytes).to_hex().to_string();
    assert_eq!(changed(&known, bytes), None);
    assert_eq!(
        changed(&known, b"solid flange, 10% wider\nendsolid flange\n").map(|hash| hash.len()),
        Some(64)
    );
}

#[test]
fn a_change_is_hashed_to_the_digest_blake3_gives() {
    let bytes = b"solid flange, 10% wider\nendsolid flange\n";
    let expected = blake3::hash(bytes).to_hex().to_string();
    assert_eq!(changed("0000", bytes), Some(expected));
}

#[test]
fn a_look_before_the_change_counts_as_no_time() {
    let mut watch = Watch::new(seen(1, 1));
    assert_eq!(watch.poll(START, seen(2, 2)), Verdict::Wait);
    assert_eq!(watch.poll(START - 1, seen(2, 2)), Verdict::Wait);
    assert_eq!(watch.poll(START + SETTLE_NANOS - 1, seen(2, 2)), Verdict::Wait);
    assert_eq!(watch.poll(START + SETTLE_NANOS, seen(2, 2)), Verdict::Hash);
}

#[test]
fn a_watch_hashes_only_once_the_latest_move_has_settled() {
    let mut watch = Watch::new(seen(10, 1));
    // Moves at 0 and at 1 s: the latest move is the one that counts.
    assert_eq!(watch.poll(START, seen(20, 2)), Verdict::Wait);
    assert_eq!(watch.poll(START + 1_000_000_000, seen(30, 3)), Verdict::Wait);
    assert_eq!(watch.poll(START + SETTLE_NANOS, seen(30, 3)), Verdict::Wait, "2 s after the first move only");
    assert_eq!(watch.poll(START + 1_000_000_000 + SETTLE_NANOS, seen(30, 3)), Verdict::Hash);
    // Hashed: nothing pending, however long it then sits.
    assert_eq!(watch.poll(START + 10 * SETTLE_NANOS, seen(30, 3)), Verdict::Wait);
    // Gone, then back as it was: each is a move, and the file must be there to be hashed.
    assert_eq!(watch.poll(START + 11 * SETTLE_NANOS, None), Verdict::Wait);
    assert_eq!(watch.poll(START + 12 * SETTLE_NANOS, None), Verdict::Wait, "pending, but not there");
    assert_eq!(watch.poll(START + 13 * SETTLE_NANOS, seen(30, 3)), Verdict::Wait);
    assert_eq!(watch.poll(START + 14 * SETTLE_NANOS, seen(30, 3)), Verdict::Hash);
}
