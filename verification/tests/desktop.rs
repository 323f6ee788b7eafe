use lapidary::desktop::{argument, entry, foreign_entry, holds_marker, without_default, xdg_dir, MARKER};
use lapidary::folder::{state_name, state_path};

#[test]
fn the_handler_runs_this_binary_with_the_server_and_workspace_it_was_registered_with() {
    let file = entry(
        "/home/mira/.cargo/bin/lapidary",
        "http://127.0.0.1:8080",
        "/home/mira/Lapidary/workspace",
    )
    .expect("an entry");
    assert!(file.starts_with("[Desktop Entry]\n"));
    assert!(file.contains(
        "\nExec=env LAPIDARY_SERVER=http://127.0.0.1:8080 LAPIDARY_WORKSPACE=/home/mira/Lapidary/workspace /home/mira/.cargo/bin/lapidary open %u\n"
    ));
    assert!(file.contains("\nMimeType=x-scheme-handler/lapidary;\n"));
    assert!(file.lines().any(|line| line == MARKER));
}

#[test]
fn a_handler_argument_a_launcher_could_split_or_misread_is_refused() {
    assert_eq!(
        argument("LAPIDARY_SERVER=https://lapidary.workshop.example:8443").as_deref(),
        Ok("LAPIDARY_SERVER=https://lapidary.workshop.example:8443")
    );
    for value in [
        "/home/mira/Parts and Jigs/lapidary",
        "LAPIDARY_WORKSPACE=$HOME/workspace",
        "/opt/lapidary\"",
        "/opt/lapidary;rm",
        "/opt/lapidary%u",
        "/opt/lapi\ndary",
        "",
    ] {
        assert!(argument(value).is_err(), "{value:?} must be refused");
    }
    assert!(
        entry("/opt/lapidary", "http://127.0.0.1:8080", "/home/mira/My Parts").is_err(),
        "a workspace with a space registers nothing"
    );
    assert!(
        entry("/opt/tools=2026/lapidary", "http://127.0.0.1:8080", "/home/mira/Lapidary/workspace")
            .is_err(),
        "an install path `env` would take for an assignment registers nothing"
    );
}

#[test]
fn unregistering_removes_only_the_default_register_set() {
    let list = "[Default Applications]\ntext/plain=org.gnome.TextEditor.desktop\nx-scheme-handler/lapidary=lapidary-url.desktop\nx-scheme-handler/https=google-chrome.desktop\n";
    assert_eq!(
        without_default(list),
        "[Default Applications]\ntext/plain=org.gnome.TextEditor.desktop\nx-scheme-handler/https=google-chrome.desktop\n"
    );
    assert_eq!(without_default("x-scheme-handler/lapidary=lapidary-url.desktop;\n"), "");
    let others = "x-scheme-handler/lapidary=someone-elses.desktop\n";
    assert_eq!(without_default(others), others);
}

#[test]
fn a_refused_argument_is_quoted_back_with_what_to_change() {
    let refusal = argument("/opt/lapidary;rm").expect_err("refused");
    assert!(refusal.starts_with("\"/opt/lapidary;rm\" holds a character"), "{refusal}");
    let equals = entry("/opt/a=b", "http://x", "/w").expect_err("refused");
    assert!(equals.starts_with("\"/opt/a=b\" holds `=`"), "{equals}");
}

#[test]
fn a_base_directory_comes_from_its_variable_or_else_home() {
    assert_eq!(xdg_dir("XDG_DATA_HOME", Some("/data"), Some("/home/mira"), ".local/share"), Ok("/data".to_owned()));
    assert_eq!(xdg_dir("XDG_DATA_HOME", Some(""), Some("/home/mira"), ".local/share"), Ok("/home/mira/.local/share".to_owned()));
    assert_eq!(
        xdg_dir("XDG_DATA_HOME", None, None, ".local/share"),
        Err("neither XDG_DATA_HOME nor HOME is set, so there is nowhere for the handler; set XDG_DATA_HOME".to_owned())
    );
    let library = "01931b6e-0000-7000-8000-000000000001";
    assert_eq!(
        state_path("/home/mira/.local/state", library, "/home/mira/parts"),
        format!("/home/mira/.local/state/lapidary/{}", state_name(library, "/home/mira/parts"))
    );
}

#[test]
fn register_leaves_a_desktop_file_it_did_not_write_alone() {
    let ours = format!("[Desktop Entry]\n{MARKER}\nName=Lapidary\n");
    assert!(holds_marker(&ours));
    assert!(!foreign_entry(Some(&ours)));
    assert!(!foreign_entry(None));
    assert!(foreign_entry(Some("[Desktop Entry]\nName=Someone else\n")));
    assert!(!holds_marker(&format!("[Desktop Entry]\n {MARKER}\n")));
}
