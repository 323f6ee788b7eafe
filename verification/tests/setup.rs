use lapidary::role::{ApiError, Role};
use lapidary::server::{default_bind, empty_str_as_none, kernel_description};
use lapidary::sharing::{reachable_at, sharing_name, BAD_NAME};

#[test]
fn an_empty_worker_variable_is_treated_as_unset_rather_than_as_a_bad_value() {
    fn parse(raw: &str) -> Result<Option<usize>, ()> {
        empty_str_as_none(raw)
    }
    assert_eq!(parse("").expect("an empty value is not an error"), None);
    assert_eq!(parse("  ").expect("nor is whitespace"), None);
    assert_eq!(parse("8").expect("a real value still parses"), Some(8));
    parse("not-a-number").expect_err("a genuinely wrong value must still be rejected rather than silently defaulted");
}

#[test]
fn a_count_reads_as_from_str_reads_it() {
    assert_eq!(empty_str_as_none(" +12 "), Ok(Some(12)));
    assert_eq!(empty_str_as_none("007"), Ok(Some(7)));
    assert_eq!(empty_str_as_none("-1"), Err(()));
    assert_eq!(empty_str_as_none("+"), Err(()));
    assert_eq!(empty_str_as_none("99999999999999999999999"), Err(()));
}

#[test]
fn the_server_listens_everywhere_by_default_and_names_no_kernel() {
    assert_eq!(default_bind(), "0.0.0.0:8080");
    assert_eq!(kernel_description(), "none (build with --features mock-kernel to compile one in)");
}

#[test]
fn a_role_is_one_of_the_three_and_nothing_else() {
    assert_eq!(Role::from_env_str("api").ok(), Some(Role::Api));
    assert_eq!(Role::from_env_str("worker").ok(), Some(Role::Worker));
    assert_eq!(Role::from_env_str("peer").ok(), Some(Role::Peer));
    match Role::from_env_str("Api") {
        Err(err @ ApiError::UnknownRole { .. }) => assert_eq!(
            err.message(),
            "`Api` is not a role. Set LAPIDARY_ROLE to `api` (serves the grid and the open path) or `worker` (runs ingest). deploy/compose.yaml sets it per service."
        ),
        other => panic!("expected a refusal, got {other:?}"),
    }
}

#[test]
fn an_address_is_a_host_and_a_port() {
    assert_eq!(reachable_at(" 192.168.1.24:8082 ").as_deref(), Some("192.168.1.24:8082"));
    assert_eq!(reachable_at("workshop.tailnet.ts.net:8082").as_deref(), Some("workshop.tailnet.ts.net:8082"));
    assert_eq!(reachable_at("[fe80::1]:8082").as_deref(), Some("[fe80::1]:8082"));
    assert_eq!(reachable_at("workshop:+80").as_deref(), Some("workshop:+80"));
    assert_eq!(reachable_at("[]:8082").as_deref(), Some("[]:8082"), "two brackets are a host with no colon in it");
    for refused in [
        "192.168.1.24",
        "192.168.1.24:0",
        "192.168.1.24:65536",
        "fe80::1:8082",
        "[::1:8082",
        ":8082",
        "https://workshop:8082",
        "mira@workshop:8082",
        "work shop:8082",
    ] {
        assert_eq!(reachable_at(refused), None, "{refused} must be refused");
    }
    let long = format!("{}:8082", "a".repeat(251));
    assert_eq!(reachable_at(&long), None);
    let fits = format!("{}:8082", "a".repeat(250));
    assert_eq!(reachable_at(&fits).as_deref(), Some(fits.as_str()));
}

#[test]
fn a_sharing_name_is_trimmed_and_a_blank_one_clears_it() {
    assert_eq!(sharing_name(Some("  Furkan's workbench ")).unwrap().as_deref(), Some("Furkan's workbench"));
    assert_eq!(sharing_name(Some("   ")).unwrap(), None);
    assert_eq!(sharing_name(None).unwrap(), None);
    assert_eq!(sharing_name(Some(&"x".repeat(65))).unwrap_err(), ("badName", BAD_NAME.to_owned()));
}
