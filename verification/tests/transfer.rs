use lapidary::agent::{
    after_batch, after_chunk, after_probe, chunk_end, downloaded, file_name_of,
    holder, later, server, BatchStep, ChunkStall, ProbeStep, CHUNK_BYTES,
};
use lapidary::checkout::{find, folder_base, folder_name, revised, workspace_dir, Checkout, WORKSPACE_UNSET};
use lapidary::images::{content_type, ImageError};
use lapidary::link::part;
use lapidary::moves::{model_destination, move_refusal, move_step, MovePart, MoveSource, MoveStep, OTHER_LIBRARY};
use lapidary::number::{decimal_text, parse_unsigned};
use lapidary::upload::{
    append_check, bundle_name_fits, plan_upload, staged_outcome, to_store, ChunkRefusal, PutFailure, StoreStep,
    MAX_UPLOAD_BYTES,
};

fn strings(v: &[&str]) -> Vec<String> {
    v.iter().map(|s| (*s).to_owned()).collect()
}

#[test]
fn the_probe_sorts_each_file_into_one_answer() {
    let plan = plan_upload(
        &strings(&["a.stl", "b.stl", "c.stl"]),
        &strings(&["h1", "h2", "h3"]),
        &[true, false, false],
        &strings(&["h2"]),
    );
    assert_eq!(plan.have, ["a.stl"]);
    assert_eq!(plan.need_rows, ["b.stl"]);
    assert_eq!(plan.need_bytes, ["c.stl"]);
}

#[test]
fn a_chunk_is_appended_only_at_the_end_and_within_the_limit() {
    assert_eq!(append_check(0, 0, 10), Ok(10));
    assert_eq!(append_check(10, 0, 10), Err(ChunkRefusal::WrongOffset { expected: 10, got: 0 }));
    assert_eq!(append_check(MAX_UPLOAD_BYTES - 1, MAX_UPLOAD_BYTES - 1, 2), Err(ChunkRefusal::TooLarge));
    assert_eq!(append_check(MAX_UPLOAD_BYTES - 1, MAX_UPLOAD_BYTES - 1, 1), Ok(MAX_UPLOAD_BYTES));
    assert_eq!(
        ChunkRefusal::WrongOffset { expected: 10, got: 0 }.message(),
        "This upload is at byte 10, not 0. Resume from 10 — the `received` field is where to continue."
    );
    assert_eq!(ChunkRefusal::TooLarge.message(), "That file is larger than the 2 GB limit for a single source file.");
}

#[test]
fn a_commit_stores_each_set_of_missing_bytes_once() {
    assert_eq!(to_store(&strings(&["h1", "h2", "h1", "h3"]), &strings(&["h3"])), [0, 1]);
}

#[test]
fn a_bundle_name_is_a_file_name_and_nothing_more() {
    assert!(bundle_name_fits("export.zip", false));
    assert!(!bundle_name_fits("", false));
    assert!(!bundle_name_fits("a/export.zip", false));
    assert!(!bundle_name_fits("export.zip", true));
}

#[test]
fn a_stored_blob_is_served_as_webp_only_when_its_header_says_so() {
    assert_eq!(content_type(b"RIFF\x24\x00\x00\x00WEBPVP8 fixture bytes"), "image/webp");
    assert_eq!(content_type(b"RIFF\x24\x00\x00\x00WEBP"), "image/webp");
    assert_eq!(content_type(b"RIFF\x24\x00\x00\x00WEB"), "model/gltf-binary");
    assert_eq!(content_type(b"glTF\x02\x00\x00\x00"), "model/gltf-binary");
}

#[test]
fn an_image_refusal_says_what_is_wrong() {
    assert_eq!(
        ImageError::TooSmall { width: 16, height: 16 }.message(),
        "That image is 16×16, and the smallest side must be at least 64 pixels. That size is usually an icon or a placeholder picked up by mistake rather than a photograph."
    );
    assert!(ImageError::TooLarge { got: 10485761 }.message().starts_with("That file is 10485761 bytes, and the limit is 10485760."));
    assert!(ImageError::NotAnImage.message().contains("PNG, JPEG and WebP"));
    assert!(ImageError::Undecodable.message().starts_with("That image could not be read."));
    assert!(ImageError::Unencodable.message().starts_with("That image could not be re-encoded"));
}

fn flange() -> Checkout {
    Checkout {
        server: "http://127.0.0.1:8080".to_owned(),
        library: "01931b6e-0000-7000-8000-000000000001".to_owned(),
        part: "01931b6e-0000-7000-8000-00000000aaaa".to_owned(),
        source_path: "flange-dn40-lp-3310-02.stl".to_owned(),
        lock: "01931b6e-0000-7000-8000-00000000eeee".to_owned(),
        holder: "mira@workshop-pc".to_owned(),
        revision: "01931b6e-0000-7000-8000-00000000bbbb".to_owned(),
        rev_label: "1".to_owned(),
        file_name: "flange-dn40-lp-3310-02.stl".to_owned(),
        blake3: "5a".repeat(32),
    }
}

#[test]
fn open_reuses_this_workspaces_checkout_of_the_part_from_the_same_server_only() {
    let other_server = Checkout { server: "http://lapidary.example:8080".to_owned(), ..flange() };
    let found = || {
        vec![
            ("/w/LP-3310-02_1-other-server".to_owned(), Some(other_server.clone())),
            ("/w/unreadable".to_owned(), None),
            ("/w/LP-3310-02_1".to_owned(), Some(flange())),
        ]
    };
    let (folder, checkout) = find(found(), &flange().server, &flange().part).expect("found");
    assert_eq!(folder, "/w/LP-3310-02_1");
    assert_eq!(checkout.server, flange().server);
    assert!(find(found(), &flange().server, "01931b6e-0000-7000-8000-00000000cccc").is_none());
    assert!(find(found(), "http://127.0.0.1:9999", &flange().part).is_none());
}

#[test]
fn a_checkout_folder_is_named_for_the_part_number_or_else_the_name() {
    assert_eq!(folder_base(Some("LP-3310-02"), "flange-dn40-lp-3310-02", "2"), "LP-3310-02_2");
    assert_eq!(folder_base(Some("   "), "flange-dn40", "1"), folder_base(None, "flange-dn40", "1"));
    assert_eq!(folder_base(None, "flange-dn40", "1"), "flange-dn40_1");
}

#[test]
fn a_checkout_folder_is_named_for_the_part_number_and_its_revision() {
    assert_eq!(folder_name(Some("LP-3310-02"), "flange-dn40-lp-3310-02", "2"), "LP-3310-02_2");
    assert_eq!(
        folder_name(Some("   "), "flange-dn40-lp-3310-02", "1"),
        folder_name(None, "flange-dn40-lp-3310-02", "1"),
        "a blank part number is no part number"
    );
    assert!(folder_name(None, "flange-dn40-lp-3310-02", "1").ends_with("_1"));
    assert!(!folder_name(None, "brackets/steel", "1").contains('/'), "a name cannot make a nested folder");
}

#[test]
fn a_checkout_folder_name_never_climbs_out_of_the_workspace() {
    assert_eq!(folder_name(None, "brackets/steel", "1"), "brackets-steel_1");
    assert_eq!(folder_name(None, "..", "1"), ".._1");
    assert_eq!(folder_name(Some("a\\b"), "x", "2"), "a-b_2");
    assert_eq!(folder_name(None, "tab\there", "3"), "tab-here_3");
}

#[test]
fn the_agent_speaks_for_a_server_and_a_holder() {
    assert_eq!(server(None), "http://127.0.0.1:8080");
    assert_eq!(server(Some("https://lapidary.example//")), "https://lapidary.example");
    assert_eq!(holder(Some("mira"), Some(" workshop-pc\n"), None), "mira@workshop-pc");
    assert_eq!(holder(None, None, Some("desk\n")), "someone@desk");
    assert_eq!(holder(Some("mira"), Some("  "), Some("desk")), "mira@this-computer");
    assert_eq!(holder(Some("mira"), None, None), "mira@this-computer");
    assert_eq!(
        later("worker"),
        "`lapidary worker` arrives in a later slice. Until then, run the stack with `podman compose -f deploy/compose.yaml up`."
    );
}

#[test]
fn a_handed_out_file_is_named_and_checked_against_its_revision() {
    assert_eq!(file_name_of("Flanges/DN40/flange.stl"), "flange.stl");
    assert_eq!(file_name_of("flange.stl"), "flange.stl");
    assert_eq!(file_name_of("Flanges/"), "");
    let bytes = b"solid flange\nendsolid flange\n";
    let digest = blake3::hash(bytes).to_hex().to_string();
    assert_eq!(downloaded(None, bytes), Some(digest.clone()));
    assert_eq!(downloaded(Some(&digest), bytes), Some(digest.clone()));
    assert_eq!(downloaded(Some(&"0".repeat(64)), bytes), None);
}

#[test]
fn a_save_sent_back_follows_the_servers_answers() {
    let have = strings(&["a.stl"]);
    let need = strings(&["b.stl"]);
    assert_eq!(after_probe(&have, &need, "a.stl"), ProbeStep::AlreadyKept);
    assert_eq!(after_probe(&have, &need, "b.stl"), ProbeStep::SendBytes);
    assert_eq!(after_probe(&have, &need, "c.stl"), ProbeStep::Commit);
    assert!(matches!(after_batch(false, None, 0), BatchStep::Wait));
    assert!(matches!(after_batch(true, Some("released by ops"), 1), BatchStep::Refused(r) if r == "released by ops"));
    assert!(matches!(after_batch(true, None, 0), BatchStep::NothingNew));
    assert!(matches!(after_batch(true, None, 1), BatchStep::Revised));
}

#[test]
fn the_bytes_go_in_chunks_and_stop_when_nothing_is_accepted() {
    assert_eq!(chunk_end(0, 10), 10);
    assert_eq!(chunk_end(0, CHUNK_BYTES * 2 + 1), CHUNK_BYTES);
    assert_eq!(chunk_end(CHUNK_BYTES * 2, CHUNK_BYTES * 2 + 1), CHUNK_BYTES * 2 + 1);
    assert_eq!(after_chunk(0, 10), Ok(10));
    assert_eq!(after_chunk(10, 10), Err(ChunkStall::NothingAccepted { offset: 10 }));
    assert_eq!(
        ChunkStall::NothingAccepted { offset: 10 }.message(),
        "sending the bytes: the server accepted nothing at byte 10; save the file again"
    );
}

#[test]
fn a_part_link_names_its_part() {
    const ID: &str = "01931b6e-0000-7000-8000-00000000aaaa";
    assert_eq!(part(&format!("lapidary://open?part={ID}")), Ok(ID.to_owned()));
    assert_eq!(
        part("https://example.com/open?part=1").unwrap_err(),
        "https://example.com/open?part=1 is not a link Lapidary opens, so nothing was opened. The only one is lapidary://open?part=<part id>, from a part's page."
    );
    assert_eq!(
        part("lapidary://open?part=../x").unwrap_err(),
        "lapidary://open?part=../x carries something other than a part id, so nothing was opened. Open the part from its page in Lapidary."
    );
    assert!(part("lapidary://open?part=").is_err());
}

#[test]
fn a_link_carrying_anything_but_one_part_id_opens_nothing() {
    const ID: &str = "01931b6e-0000-7000-8000-00000000aaaa";
    for link in [
        format!("https://example.com/open?part={ID}"),
        format!("lapidary://download?part={ID}"),
        format!("lapidary://open/x?part={ID}"),
        format!("lapidary://open:8080?part={ID}"),
        format!("lapidary://mira@open?part={ID}"),
        format!("lapidary://open?id={ID}"),
        format!("lapidary://open?part={ID}&server=http://attacker.example"),
        format!("lapidary://open?part={ID}&part={ID}"),
        format!("lapidary://open?part={ID}#details"),
        "lapidary://open?part=01931b6e-0000-7000-8000-00000000aa%61a".to_owned(),
        "lapidary://open?part=../../.ssh/id_ed25519".to_owned(),
        "lapidary://open?part=".to_owned(),
        "lapidary://open?part=abc".to_owned(),
    ] {
        assert!(part(&link).is_err(), "{link} must open nothing");
    }
}

#[test]
fn a_link_to_something_shaped_unlike_a_part_id_says_so() {
    assert_eq!(
        part("lapidary://open?part=abc").unwrap_err(),
        "lapidary://open?part=abc does not name a part (abc is not a part id), so nothing was opened. Open the part from its page in Lapidary."
    );
    assert!(part("lapidary://open?part=01931B6E-0000-7000-8000-00000000AAAA").is_ok());
    assert!(part("lapidary://open?part=01931b6e0000-7000-8000-00000000aaaa-").is_err());
}

#[test]
fn a_moved_model_keeps_its_directory_name() {
    assert_eq!(model_destination("default", "rocks/cliffs", "libraries/default/old/cliff"), "libraries/default/rocks/cliffs/cliff");
    assert_eq!(model_destination("default", "", "libraries/default/old/cliff"), "libraries/default/cliff");
}

#[test]
fn numbers_read_and_write_in_decimal() {
    assert_eq!(parse_unsigned("65535", 65535), Some(65535));
    assert_eq!(parse_unsigned("65536", 65535), None);
    assert_eq!(parse_unsigned("+0", 65535), Some(0));
    assert_eq!(parse_unsigned("1_000", 65535), None);
    assert_eq!(decimal_text(0), "0");
    assert_eq!(decimal_text(1234567890), "1234567890");
}

fn rock() -> MoveSource {
    MoveSource {
        library: "lib-a".to_owned(),
        folder: Some("cliffs".to_owned()),
        directory: Some("libraries/default/cliffs/rock".to_owned()),
        source_hash: Some("ab".repeat(32)),
        name: "rock".to_owned(),
    }
}

#[test]
fn a_move_is_decided_step_by_step() {
    let to = |folder: Option<&str>, ack: bool| MovePart { folder_id: folder.map(|f| f.to_owned()), acknowledge_duplicate: ack };
    assert_eq!(move_step(None, &to(Some("x"), false), None, None), MoveStep::NoSuchPart);
    assert_eq!(move_step(Some(&rock()), &to(Some("cliffs"), false), None, None), MoveStep::Unchanged);
    let unmigrated = MoveSource { directory: None, ..rock() };
    assert_eq!(move_step(Some(&unmigrated), &to(Some("x"), false), None, None), MoveStep::MigrationPending);
    assert_eq!(move_step(Some(&rock()), &to(Some("x"), false), None, None), MoveStep::LookUpTarget);
    assert_eq!(move_step(Some(&rock()), &to(Some("x"), false), Some(None), None), MoveStep::NoSuchFolder);
    assert_eq!(move_step(Some(&rock()), &to(Some("x"), false), Some(Some("lib-b")), None), MoveStep::OtherLibrary);
    assert_eq!(move_step(Some(&rock()), &to(Some("x"), false), Some(Some("lib-a")), None), MoveStep::CheckName);
    assert_eq!(move_step(Some(&rock()), &to(None, false), None, Some(true)), MoveStep::Duplicate);
    let relocate = MoveStep::Relocate { from: "libraries/default/cliffs/rock".to_owned(), hash: "ab".repeat(32) };
    assert_eq!(move_step(Some(&rock()), &to(Some("x"), true), Some(Some("lib-a")), None), relocate);
    assert_eq!(move_step(Some(&rock()), &to(None, false), None, Some(false)), relocate);
}

#[test]
fn a_refused_move_says_why() {
    assert_eq!(move_refusal(&MoveStep::OtherLibrary, "rock"), Some(("crossLibrary", OTHER_LIBRARY.to_owned())));
    let (reason, message) = move_refusal(&MoveStep::Duplicate, "rock").expect("refused");
    assert_eq!(reason, "duplicateName");
    assert!(message.starts_with("A model called `rock` is already in that category."));
    assert_eq!(move_refusal(&MoveStep::CheckName, "rock"), None);
}

#[test]
fn a_committed_file_is_stored_only_from_staged_bytes() {
    assert!(matches!(
        staged_outcome("brackets/steel.stl", false, None),
        StoreStep::NotUploaded(m) if m == "The bytes for \"brackets/steel.stl\" have not been uploaded yet. Send the file's chunks before committing it."
    ));
    assert!(matches!(staged_outcome("a.stl", true, None), StoreStep::Put));
    assert!(matches!(staged_outcome("a.stl", true, Some(Ok(()))), StoreStep::Record));
    assert!(matches!(
        staged_outcome("a.stl", true, Some(Err(PutFailure::HashMismatch("the bytes hash to cd".to_owned())))),
        StoreStep::Refused(m) if m == "the bytes hash to cd"
    ));
    assert!(matches!(
        staged_outcome("a.stl", true, Some(Err(PutFailure::Other("disk full".to_owned())))),
        StoreStep::Failed(m) if m == "disk full"
    ));
}

#[test]
fn a_kept_save_moves_the_checkout_on_and_nothing_else() {
    let after = revised(flange(), "01931b6e-0000-7000-8000-00000000dddd".to_owned(), "2".to_owned(), "7c".repeat(32));
    assert_eq!(after.revision, "01931b6e-0000-7000-8000-00000000dddd");
    assert_eq!(after.rev_label, "2");
    assert_eq!(after.blake3, "7c".repeat(32));
    let before = flange();
    assert_eq!(
        (after.server, after.library, after.part, after.source_path, after.lock, after.holder, after.file_name),
        (before.server, before.library, before.part, before.source_path, before.lock, before.holder, before.file_name)
    );
}

#[test]
fn checkouts_go_to_the_workspace_variable_or_under_home() {
    assert_eq!(workspace_dir(Some("/srv/ws"), Some("/home/mira")), Ok("/srv/ws".to_owned()));
    assert_eq!(workspace_dir(None, Some("/home/mira")), Ok("/home/mira/Lapidary/workspace".to_owned()));
    assert_eq!(workspace_dir(None, Some("/home/mira/")), Ok("/home/mira/Lapidary/workspace".to_owned()));
    assert_eq!(workspace_dir(None, None), Err(WORKSPACE_UNSET.to_owned()));
    assert_eq!(
        std::path::Path::new("/home/mira").join("Lapidary").join("workspace").to_str(),
        Some("/home/mira/Lapidary/workspace")
    );
}
