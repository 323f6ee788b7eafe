use lapidary::folder::{
    already_sent, batches, committed, ignored, plan, refusals, sent_for, settle, source_path, stamp,
    state_name, Batch,
    Failure, Known, BATCH_BYTES, RETRY_NANOS,
};
use lapidary::path_map::PathMap;
use lapidary::watch::{Seen, Watch, SETTLE_NANOS};

fn seen(size: u64, modified: u64) -> Seen {
    Seen { size, modified_nanos: modified as i128 * 1_000_000_000 }
}

fn listing(files: &[(&str, Seen)]) -> PathMap<Seen> {
    let mut map = PathMap::new();
    for (path, seen) in files {
        map.insert((*path).to_owned(), *seen);
    }
    map
}

fn keys<V>(map: &PathMap<V>) -> Vec<String> {
    (0..map.len()).map(|i| map.key_at(i).clone()).collect()
}

/// Some moment on the agent's clock.
const NOW: u64 = 5_000_000_000_000;

#[test]
fn two_folders_watched_into_one_library_keep_separate_states() {
    let library = "01931b6e-0000-7000-8000-000000000001";
    let flanges = state_name(library, "/home/jbo/parts/flanges");
    let brackets = state_name(library, "/home/jbo/parts/brackets");
    assert_ne!(flanges, brackets);
    assert_eq!(flanges, state_name(library, "/home/jbo/parts/flanges"));
    assert!(flanges.starts_with(&format!("watch-{library}-")) && flanges.ends_with(".json"));
}

#[test]
fn the_ignore_list_is_data_6_2s_whole() {
    for name in [
        ".DS_Store",
        "Thumbs.db",
        "~$flange-dn40-lp-3310-02.stl",
        "flange-dn40-lp-3310-02.stl.bak",
        "fixture-plate.3dm.bak",
        "spur-gear-m2-20t.3mf.tmp",
        "vee-block.stl.lck",
        "bracket.FCStd.autosave",
        ".git",
    ] {
        assert!(ignored(name), "{name} is ignored");
    }
    for name in ["flange-dn40-lp-3310-02.stl", "spur-gear-m2-20t.3mf", "fixture-plate.STEP"] {
        assert!(!ignored(name), "{name} is watched");
    }
}

#[test]
fn a_source_path_is_the_path_under_the_folder_and_never_leaves_it() {
    let root = "/home/mira/parts";
    assert_eq!(
        source_path(root, "/home/mira/parts/Flanges/DN40/flange-dn40-lp-3310-02.stl").as_deref(),
        Some("Flanges/DN40/flange-dn40-lp-3310-02.stl")
    );
    assert_eq!(source_path(root, "/home/mira/fixtures/vee-block.stl"), None);
    assert_eq!(source_path(root, "/home/mira/parts/../fixtures/vee-block.stl"), None);
    assert_eq!(source_path(root, root), None);
}

#[test]
fn a_new_file_is_hashed_once_it_has_settled() {
    let known: PathMap<Known> = PathMap::new();
    let files = listing(&[("Flanges/flange-dn40-lp-3310-02.stl", seen(9_684, 10))]);
    let mut watches: PathMap<Watch> = PathMap::new();
    assert!(
        plan(&known, &files, &mut watches, &mut PathMap::new(), NOW).hash.is_empty(),
        "still settling"
    );
    assert_eq!(
        plan(&known, &files, &mut watches, &mut PathMap::new(), NOW + SETTLE_NANOS).hash,
        ["Flanges/flange-dn40-lp-3310-02.stl"]
    );
    assert!(
        plan(&known, &files, &mut watches, &mut PathMap::new(), NOW + SETTLE_NANOS * 2)
            .hash
            .is_empty(),
        "once"
    );
}

#[test]
fn a_file_deleted_here_is_reported_and_nothing_is_sent() {
    let mut known = PathMap::new();
    known.insert(
        "vee-block-lp-3072-02.stl".to_owned(),
        Known { size: 5_284, modified_ms: 10_000, blake3: "a".repeat(64) },
    );
    let round = plan(&known, &PathMap::new(), &mut PathMap::new(), &mut PathMap::new(), NOW);
    assert_eq!(round.deleted, ["vee-block-lp-3072-02.stl"]);
    assert!(round.hash.is_empty());
}

#[test]
fn after_a_restart_an_unchanged_file_sends_nothing() {
    let look = seen(9_684, 10);
    let mut known = PathMap::new();
    known.insert(
        "flange-dn40-lp-3310-02.stl".to_owned(),
        Known { size: look.size, modified_ms: stamp(&look), blake3: "b".repeat(64) },
    );
    let files = listing(&[("flange-dn40-lp-3310-02.stl", look)]);
    let mut watches: PathMap<Watch> = PathMap::new();
    for later in [0, SETTLE_NANOS, SETTLE_NANOS * 3] {
        let round = plan(&known, &files, &mut watches, &mut PathMap::new(), NOW + later);
        assert!(round.hash.is_empty() && round.deleted.is_empty(), "{round:?}");
    }
}

#[test]
fn files_settled_together_go_up_in_uploads_that_fit_in_memory() {
    let mib = 1024 * 1024;
    let files = listing(&[
        ("planetary-carrier-lp-3480-02.3mf", seen(40 * mib, 10)),
        ("spur-gear-m2-20t.stl", seen(20 * mib, 10)),
        ("vee-block-lp-3072-02.stl", seen(10 * mib, 10)),
        ("housing-lp-7710-01.step", seen(90 * mib, 10)),
        ("flange-dn40-lp-3310-02.stl", seen(mib, 10)),
    ]);
    let order = [
        "planetary-carrier-lp-3480-02.3mf",
        "spur-gear-m2-20t.stl",
        "vee-block-lp-3072-02.stl",
        "housing-lp-7710-01.step",
        "flange-dn40-lp-3310-02.stl",
    ];
    let groups = batches(order.iter().map(|path| (*path).to_owned()).collect(), &files);
    assert_eq!(
        groups,
        [
            vec!["planetary-carrier-lp-3480-02.3mf", "spur-gear-m2-20t.stl"],
            vec!["vee-block-lp-3072-02.stl"],
            vec!["housing-lp-7710-01.step"],
            vec!["flange-dn40-lp-3310-02.stl"],
        ]
    );
}

fn batch(failed_total: u32, failed: &[&str]) -> Batch {
    Batch {
        finished_at: Some("2026-09-15T08:12:40Z".to_owned()),
        ingested: 0,
        skipped: 0,
        revised: 0,
        unkept: 0,
        failed_total,
        failed: failed
            .iter()
            .map(|path| Failure {
                path: (*path).to_owned(),
                reason: "LP-3310-02 is checked out to mira; check it in, then save again.".to_owned(),
            })
            .collect(),
    }
}

#[test]
fn a_refused_file_is_not_recorded_as_sent_and_is_sent_again_later() {
    let files = listing(&[
        ("flange-dn40-lp-3310-02.stl", seen(10_112, 40)),
        ("idler-pulley-lp-4820-00.stl", seen(5_284, 40)),
    ]);
    let mut known: PathMap<Known> = PathMap::new();
    let mut watches: PathMap<Watch> = PathMap::new();
    let mut refused: PathMap<u64> = PathMap::new();
    let start = NOW;
    assert!(plan(&known, &files, &mut watches, &mut refused, start).hash.is_empty());
    let settled = start + SETTLE_NANOS;
    let round = plan(&known, &files, &mut watches, &mut refused, settled);
    assert_eq!(round.hash.len(), 2);

    let committed = round.hash.clone();
    let refusals = refusals(&committed, Some(&batch(1, &["flange-dn40-lp-3310-02.stl"])));
    assert_eq!(refusals, ["flange-dn40-lp-3310-02.stl"]);
    let sent = committed
        .iter()
        .map(|path| {
            let look = *files.get(path).expect("listed");
            (
                path.clone(),
                Known { size: look.size, modified_ms: stamp(&look), blake3: "c".repeat(64) },
            )
        })
        .collect();
    settle(&mut known, &mut refused, sent, &refusals, settled);
    assert_eq!(keys(&known), ["idler-pulley-lp-4820-00.stl"], "only the kept one");

    let before = plan(&known, &files, &mut watches, &mut refused, settled + RETRY_NANOS - SETTLE_NANOS);
    assert!(before.hash.is_empty(), "not before RETRY: {before:?}");
    let due = settled + RETRY_NANOS;
    assert!(plan(&known, &files, &mut watches, &mut refused, due).hash.is_empty(), "settling again");
    assert_eq!(
        plan(&known, &files, &mut watches, &mut refused, due + SETTLE_NANOS).hash,
        ["flange-dn40-lp-3310-02.stl"]
    );
}

#[test]
fn failures_that_cannot_all_be_matched_refuse_the_whole_upload() {
    let committed = ["flange-dn40-lp-3310-02.stl".to_owned(), "vee-block-lp-3072-02.stl".to_owned()];
    assert!(refusals(&committed, None).is_empty(), "nothing committed, nothing refused");
    assert!(refusals(&committed, Some(&batch(0, &[]))).is_empty());
    assert_eq!(
        refusals(&committed, Some(&batch(101, &["flange-dn40-lp-3310-02.stl"]))),
        committed,
        "more failures than the batch lists"
    );
    assert_eq!(refusals(&committed, Some(&batch(1, &[""]))), committed, "a failure naming no path");
}

#[test]
fn a_file_changed_while_the_watch_was_stopped_is_hashed() {
    let mut known = PathMap::new();
    known.insert(
        "flange-dn40-lp-3310-02.stl".to_owned(),
        Known { size: 9_684, modified_ms: stamp(&seen(9_684, 10)), blake3: "b".repeat(64) },
    );
    let files = listing(&[("flange-dn40-lp-3310-02.stl", seen(10_112, 40))]);
    let mut watches: PathMap<Watch> = PathMap::new();
    assert!(plan(&known, &files, &mut watches, &mut PathMap::new(), NOW).hash.is_empty());
    assert_eq!(
        plan(&known, &files, &mut watches, &mut PathMap::new(), NOW + SETTLE_NANOS).hash,
        ["flange-dn40-lp-3310-02.stl"]
    );
}

#[test]
fn a_file_over_the_upload_size_goes_up_alone() {
    let files = listing(&[("a.stl", seen(BATCH_BYTES + 1, 1)), ("b.stl", seen(1, 1))]);
    let groups = batches(vec!["b.stl".to_owned(), "a.stl".to_owned()], &files);
    assert_eq!(groups, [vec!["b.stl"], vec!["a.stl"]]);
}

#[test]
fn a_modification_before_the_epoch_stamps_as_zero() {
    assert_eq!(stamp(&Seen { size: 1, modified_nanos: -5 }), 0);
    assert_eq!(stamp(&Seen { size: 1, modified_nanos: 1_999_999 }), 1);
}

#[test]
fn what_is_recorded_for_a_sent_file_is_its_look_and_its_digest() {
    let look = seen(29, 40);
    let known = sent_for(&look, b"solid flange\nendsolid flange\n");
    assert_eq!(known.size, 29);
    assert_eq!(known.modified_ms, 40_000);
    assert_eq!(known.blake3, blake3::hash(b"solid flange\nendsolid flange\n").to_hex().to_string());
}

#[test]
fn a_file_sent_with_the_same_digest_is_not_sent_again() {
    let mut known = PathMap::new();
    let k = Known { size: 3, modified_ms: 1000, blake3: "ab".repeat(32) };
    known.insert("a.stl".to_owned(), k.clone());
    assert!(already_sent(&known, "a.stl", &Known { modified_ms: 2000, ..k.clone() }));
    assert!(!already_sent(&known, "a.stl", &Known { blake3: "cd".repeat(32), ..k.clone() }));
    assert!(!already_sent(&known, "b.stl", &k));
}

#[test]
fn what_the_library_already_holds_is_not_committed() {
    let sent: Vec<String> = ["a.stl", "b.stl", "c.stl"].iter().map(|s| (*s).to_owned()).collect();
    assert_eq!(committed(&sent, &["b.stl".to_owned()]), ["a.stl", "c.stl"]);
    assert_eq!(committed(&sent, &[]), ["a.stl", "b.stl", "c.stl"]);
    assert!(committed(&sent, &sent).is_empty());
}

#[test]
fn a_source_path_is_plain_names_under_the_folder() {
    assert_eq!(source_path("/w/lib", "/w/lib/brackets/steel.stl").as_deref(), Some("brackets/steel.stl"));
    assert_eq!(source_path("/w/lib/", "/w/lib/brackets/steel.stl").as_deref(), Some("brackets/steel.stl"));
    assert_eq!(source_path("/w/lib", "/w/lib/../etc/passwd"), None);
    assert_eq!(source_path("/w/lib", "/w/lib"), None);
    assert_eq!(source_path("/w/lib", "/w/other/a.stl"), None);
}

#[test]
fn a_source_path_joined_back_names_the_same_file() {
    let root = std::path::Path::new("/w/lib/");
    for path in ["/w/lib/brackets/steel.stl", "/w/lib//brackets/./steel.stl", "/w/lib/a"] {
        let rel = source_path("/w/lib/", path).expect("under the folder");
        assert_eq!(root.join(&rel), std::path::Path::new(path));
    }
    let rel = "brackets/steel.stl";
    assert_eq!(source_path("/w/lib", std::path::Path::new("/w/lib").join(rel).to_str().unwrap()).as_deref(), Some(rel));
    assert_eq!(source_path("", rel).as_deref(), Some(rel));
}
