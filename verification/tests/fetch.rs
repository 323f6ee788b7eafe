use lapidary::fetch::{
    after_answer, allowed, declared_fits, fetchable, first_url, hop_target, pin, redirect_to,
    Address, CappedBody, FetchError, Follow, Hop, UrlHost, MAX_REDIRECTS,
};
use lapidary::images::MAX_INPUT_BYTES;

fn v4(a: u8, b: u8, c: u8, d: u8) -> Address {
    Address::V4(a, b, c, d)
}

fn v6(s: [u16; 8]) -> Address {
    Address::V6(s[0], s[1], s[2], s[3], s[4], s[5], s[6], s[7])
}

fn public(addr: Address) -> bool {
    allowed(addr)
}

#[test]
fn the_metadata_endpoint_is_refused_in_every_spelling_of_it() {
    assert!(!public(v4(169, 254, 169, 254)), "the address itself");
    assert!(!public(v6([0, 0, 0, 0, 0, 0xffff, 0xa9fe, 0xa9fe])), "as an IPv4-mapped IPv6 address");
    assert!(!public(v6([0, 0, 0, 0, 0, 0xffff, 0xa9fe, 0xa9fe])), "the same mapping, written in hex");
    assert!(!public(v6([0x64, 0xff9b, 0, 0, 0, 0, 0xa9fe, 0xa9fe])), "through the NAT64 well-known prefix");
    assert!(!public(v6([0, 0, 0, 0, 0, 0, 0xa9fe, 0xa9fe])), "as a deprecated IPv4-compatible address");
}

#[test]
fn private_and_reserved_ranges_are_refused() {
    for (addr, what) in [
        (v4(0, 0, 0, 0), "unspecified"),
        (v4(0, 1, 2, 3), "this network, RFC 1122 — reaches localhost on Linux"),
        (v4(239, 255, 255, 255), "the top of multicast"),
        (v4(127, 0, 0, 1), "loopback"),
        (v4(127, 255, 255, 254), "the far end of loopback"),
        (v4(10, 0, 0, 1), "RFC 1918 10/8"),
        (v4(172, 16, 0, 1), "RFC 1918 172.16/12"),
        (v4(172, 31, 255, 254), "the far end of 172.16/12"),
        (v4(192, 168, 1, 1), "RFC 1918 192.168/16"),
        (v4(169, 254, 0, 1), "link-local"),
        (v4(100, 64, 0, 1), "CGNAT, RFC 6598"),
        (v4(100, 127, 255, 254), "the far end of CGNAT"),
        (v4(198, 18, 0, 1), "benchmarking, RFC 2544"),
        (v4(192, 0, 0, 1), "IETF protocol assignments"),
        (v4(192, 0, 2, 1), "documentation, RFC 5737"),
        (v4(203, 0, 113, 1), "documentation"),
        (v4(224, 0, 0, 1), "multicast"),
        (v4(240, 0, 0, 1), "reserved, RFC 1112"),
        (v4(255, 255, 255, 255), "broadcast"),
        (v6([0, 0, 0, 0, 0, 0, 0, 0]), "IPv6 unspecified"),
        (v6([0, 0, 0, 0, 0, 0, 0, 1]), "IPv6 loopback"),
        (v6([0xfc00, 0, 0, 0, 0, 0, 0, 1]), "IPv6 unique local"),
        (v6([0xfd12, 0x3456, 0, 0, 0, 0, 0, 1]), "IPv6 unique local, the fd half"),
        (v6([0xfe80, 0, 0, 0, 0, 0, 0, 1]), "IPv6 link-local"),
        (v6([0xff02, 0, 0, 0, 0, 0, 0, 1]), "IPv6 multicast"),
        (v6([0, 0, 0, 0, 0, 0xffff, 0x7f00, 0x0001]), "loopback, mapped"),
        (v6([0, 0, 0, 0, 0, 0xffff, 0x0a00, 0x0001]), "RFC 1918, mapped"),
    ] {
        assert!(!public(addr), "{addr:?} ({what}) must be refused");
    }
}

#[test]
fn ordinary_public_addresses_are_allowed() {
    for addr in [
        v4(1, 1, 1, 1),
        v4(8, 8, 8, 8),
        v4(93, 184, 216, 34),
        v4(172, 15, 255, 255),
        v4(172, 32, 0, 1),
        v4(100, 63, 255, 255),
        v4(100, 128, 0, 1),
        v4(198, 17, 255, 255),
        v4(198, 20, 0, 1),
        v4(192, 0, 1, 1),
        v6([0x2606, 0x4700, 0, 0, 0, 0, 0, 0x1111]),
        v6([0x2001, 0x4860, 0x4860, 0, 0, 0, 0, 0x8888]),
        v6([0, 0, 0, 0, 0, 0xffff, 0x0808, 0x0808]),
    ] {
        assert!(public(addr), "{addr:?} must be allowed");
    }
}

#[test]
fn only_http_and_https_with_a_host_and_a_port_are_fetched() {
    assert!(matches!(fetchable("http", Some(80), true), Ok(80)));
    assert!(matches!(fetchable("https", Some(8443), true), Ok(8443)));
    assert!(matches!(fetchable("file", None, false), Err(FetchError::NotFetchable)));
    assert!(matches!(fetchable("ftp", Some(21), true), Err(FetchError::NotFetchable)));
    assert!(matches!(fetchable("gopher", Some(70), true), Err(FetchError::NotFetchable)));
    assert!(matches!(fetchable("http", None, true), Err(FetchError::NotFetchable)));
    assert!(matches!(fetchable("http", Some(80), false), Err(FetchError::NotFetchable)));
}

#[test]
fn every_address_a_name_resolves_to_must_be_public() {
    assert!(matches!(pin(&[]), Err(FetchError::Unresolvable)));
    assert!(matches!(pin(&[v4(8, 8, 8, 8), v4(127, 0, 0, 1)]), Err(FetchError::NotPublic)));
    assert!(matches!(pin(&[v4(127, 0, 0, 1)]), Err(FetchError::NotPublic)));
    assert_eq!(pin(&[v4(8, 8, 8, 8), v4(1, 1, 1, 1)]).ok(), Some(v4(8, 8, 8, 8)));
}

#[test]
fn an_answer_leads_to_a_redirect_a_read_or_a_refusal() {
    assert!(matches!(after_answer(302, ""), Hop::Redirect));
    assert!(matches!(after_answer(200, "image/webp"), Hop::Read));
    assert!(matches!(after_answer(200, ""), Hop::Read));
    assert!(matches!(after_answer(404, "text/html"), Hop::Refuse(FetchError::NotOk { status: 404 })));
    match after_answer(200, "text/html") {
        Hop::Refuse(err @ FetchError::NotAnImage { .. }) => {
            assert!(err.message().contains("text/html"), "{}", err.message());
        }
        other => panic!("expected a refusal, got {other:?}"),
    }
}

#[test]
fn a_redirect_loop_stops_at_the_limit() {
    let mut follow = Follow::new();
    let mut requests = 0;
    while follow.may_request() {
        requests += 1;
        assert!(matches!(follow.answer(302, ""), Hop::Redirect));
    }
    assert_eq!(requests, MAX_REDIRECTS + 1);
    assert_eq!(follow.requests(), MAX_REDIRECTS + 1);
}

#[test]
fn a_body_larger_than_the_cap_is_stopped_while_it_arrives() {
    assert!(declared_fits(None));
    assert!(declared_fits(Some(MAX_INPUT_BYTES as u64)));
    assert!(!declared_fits(Some(MAX_INPUT_BYTES as u64 + 1)));
    let mut body = CappedBody::new();
    let mib = vec![0u8; 1024 * 1024];
    for _ in 0..10 {
        assert!(body.push(&mib).is_ok());
    }
    assert!(matches!(body.push(&[1u8]), Err(FetchError::TooLarge)));
    assert_eq!(body.into_bytes().len(), MAX_INPUT_BYTES);
}

#[test]
fn each_refusal_says_what_happened() {
    assert_eq!(FetchError::NotOk { status: 404 }.message(), "That address answered 404, so there was nothing to fetch.");
    assert_eq!(
        FetchError::Unreachable { detail: "connection refused".to_owned() }.message(),
        "That address could not be reached: connection refused"
    );
    assert!(FetchError::TooManyRedirects.message().contains("more than 3 times"));
    assert!(FetchError::TimedOut.message().contains("10 seconds"));
    assert!(FetchError::TooLarge.message().contains("10 MB"));
    assert!(FetchError::NotFetchable.message().starts_with("That is not a URL"));
    assert!(FetchError::NotPublic.message().starts_with("That address is not one"));
    assert!(FetchError::Unresolvable.message().starts_with("That host could not be found"));
    assert!(FetchError::BadRedirect.message().contains("`Location`"));
}

#[test]
fn a_hop_goes_only_to_http_and_https_with_a_host() {
    for url in ["file:///etc/passwd", "ftp://example.invalid/image.png", "gopher://example.invalid/", "not a url at all"] {
        let refused = first_url(url).and_then(|u| hop_target(&u).map(|_| ()));
        assert!(matches!(refused, Err(FetchError::NotFetchable)), "{url} must not be fetched");
    }
    let target = hop_target(&first_url("http://[::1]:9/image.png").unwrap()).unwrap();
    assert_eq!(target.port, 9);
    assert!(matches!(target.host, UrlHost::Literal(Address::V6(0, 0, 0, 0, 0, 0, 0, 1))));
    let target = hop_target(&first_url("https://example.com/a.png").unwrap()).unwrap();
    assert_eq!(target.port, 443);
    assert!(matches!(target.host, UrlHost::Name(ref n) if n == "example.com"));
    let target = hop_target(&first_url("http://127.0.0.1:9/image.png").unwrap()).unwrap();
    assert!(matches!(target.host, UrlHost::Literal(a) if !allowed(a)));
    assert_eq!(redirect_to("http://127.0.0.1:9/relative", Some("/cliff.webp")).unwrap(), "http://127.0.0.1:9/cliff.webp");
    assert!(matches!(redirect_to("http://127.0.0.1:9/x", None), Err(FetchError::BadRedirect)));
    assert!(matches!(redirect_to("http://127.0.0.1:9/x", Some("http://[")), Err(FetchError::BadRedirect)));
}

#[test]
fn a_redirect_is_followed_until_the_count_runs_out() {
    let mut follow = Follow::new();
    assert_eq!(
        follow.redirect("https://example.com/a/b.png", Some("c.png")).ok().as_deref(),
        Some("https://example.com/a/c.png")
    );
    assert!(matches!(follow.redirect("https://example.com/a/b.png", None), Err(FetchError::BadRedirect)));
    for _ in 0..MAX_REDIRECTS + 1 {
        assert!(matches!(follow.answer(302, ""), Hop::Redirect));
    }
    assert!(matches!(
        follow.redirect("https://example.com/a/b.png", Some("/d.png")),
        Err(FetchError::TooManyRedirects)
    ));
    assert!(matches!(follow.redirect("https://example.com/a/b.png", None), Err(FetchError::BadRedirect)));
}
