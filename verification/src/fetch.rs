//! Fetching an image from a URL somebody pasted, which is a request to make this server send
//! traffic wherever a stranger points it. These are the decisions that keep it on the public
//! internet: which addresses may be connected to, what a hop's answer leads to, and where the
//! byte cap stops a body. Resolving, connecting and reading are the caller's.
//!
//! Every address a name resolves to must pass, not just the one used; redirects are followed
//! one hop at a time with every check applied again; and the cap is enforced while reading.

use vstd::prelude::*;
use crate::images::MAX_INPUT_BYTES;
use crate::number::{decimal, decimal_text};
use crate::text::{has_prefix, push_all, same_text};

verus! {

/// At most three redirects: four requests, counting the first.
pub const MAX_REDIRECTS: usize = 3;

/// An address a name resolved to, or a URL named literally.
#[derive(Debug, Clone, Copy, PartialEq, Eq)]
pub enum Address {
    /// An IPv4 address by its four octets.
    V4(u8, u8, u8, u8),
    /// An IPv6 address by its eight 16-bit segments.
    V6(u16, u16, u16, u16, u16, u16, u16, u16),
}

/// Whether this server will connect to the IPv4 address `a.b.c.d`: refused are 0/8 ("this
/// network", which reaches localhost on Linux), loopback 127/8, the private 10/8, 172.16/12 and
/// 192.168/16, link-local 169.254/16 (where the cloud metadata endpoint lives), broadcast,
/// documentation (192.0.2/24, 198.51.100/24, 203.0.113/24), multicast 224/4, CGNAT 100.64/10,
/// benchmarking 198.18/15, IETF protocol assignments 192.0.0/24, and reserved 240/4.
pub open spec fn v4_public(a: u8, b: u8, c: u8, d: u8) -> bool {
    !(a == 0 || a == 127 || a == 10 || (a == 172 && 16 <= b < 32) || (a == 192 && b == 168) || (
    a == 169 && b == 254) || (a == 255 && b == 255 && c == 255 && d == 255) || (a == 192 && b == 0
        && c == 2) || (a == 198 && b == 51 && c == 100) || (a == 203 && b == 0 && c == 113) || (224
        <= a <= 239) || (a == 100 && 64 <= b < 128) || (a == 198 && 18 <= b < 20) || (a == 192 && b
        == 0 && c == 0) || a >= 240)
}

/// The high byte of a segment.
pub open spec fn high(s: u16) -> u8 {
    (s / 256) as u8
}

/// The low byte of a segment.
pub open spec fn low(s: u16) -> u8 {
    (s % 256) as u8
}

/// Whether this server will connect to the IPv6 address with these segments. One that carries an
/// IPv4 address is judged on that address: mapped (`::ffff:a.b.c.d`), through the NAT64
/// well-known prefix (`64:ff9b::a.b.c.d`), or the deprecated compatible form (`::a.b.c.d`, other
/// than `::` and `::1`). Otherwise refused are `::`, `::1`, multicast ff00::/8, unique local
/// fc00::/7 and link-local fe80::/10.
pub open spec fn v6_public(s0: u16, s1: u16, s2: u16, s3: u16, s4: u16, s5: u16, s6: u16, s7: u16) -> bool {
    let zero_front = s0 == 0 && s1 == 0 && s2 == 0 && s3 == 0 && s4 == 0;
    let unspecified = zero_front && s5 == 0 && s6 == 0 && s7 == 0;
    let loopback = zero_front && s5 == 0 && s6 == 0 && s7 == 1;
    if zero_front && s5 == 0xffff {
        v4_public(high(s6), low(s6), high(s7), low(s7))
    } else if s0 == 0x64 && s1 == 0xff9b {
        v4_public(high(s6), low(s6), high(s7), low(s7))
    } else if zero_front && s5 == 0 && !loopback && !unspecified {
        v4_public(high(s6), low(s6), high(s7), low(s7))
    } else {
        !(unspecified || loopback || (s0 & 0xff00) == 0xff00 || (s0 & 0xfe00) == 0xfc00 || (s0
            & 0xffc0) == 0xfe80)
    }
}

/// The segment whose high byte is `a` and low byte is `b`.
pub open spec fn segment(a: u8, b: u8) -> u16 {
    (a * 256 + b) as u16
}

/// Whether this server will open a connection to `ip`.
pub open spec fn is_public(ip: Address) -> bool {
    match ip {
        Address::V4(a, b, c, d) => v4_public(a, b, c, d),
        Address::V6(s0, s1, s2, s3, s4, s5, s6, s7) => v6_public(s0, s1, s2, s3, s4, s5, s6, s7),
    }
}

/// Whether this server will connect to the IPv4 address `a.b.c.d`.
pub fn v4_allowed(a: u8, b: u8, c: u8, d: u8) -> (ok: bool)
    ensures
        ok == v4_public(a, b, c, d),
{
    !(a == 0 || a == 127 || a == 10 || (a == 172 && 16 <= b && b < 32) || (a == 192 && b == 168)
        || (a == 169 && b == 254) || (a == 255 && b == 255 && c == 255 && d == 255) || (a == 192
        && b == 0 && c == 2) || (a == 198 && b == 51 && c == 100) || (a == 203 && b == 0 && c
        == 113) || (224 <= a && a <= 239) || (a == 100 && 64 <= b && b < 128) || (a == 198 && 18
        <= b && b < 20) || (a == 192 && b == 0 && c == 0) || a >= 240)
}

/// Whether this server will connect to the IPv6 address with these segments.
pub fn v6_allowed(s0: u16, s1: u16, s2: u16, s3: u16, s4: u16, s5: u16, s6: u16, s7: u16) -> (ok: bool)
    ensures
        ok == v6_public(s0, s1, s2, s3, s4, s5, s6, s7),
{
    let zero_front = s0 == 0 && s1 == 0 && s2 == 0 && s3 == 0 && s4 == 0;
    let unspecified = zero_front && s5 == 0 && s6 == 0 && s7 == 0;
    let loopback = zero_front && s5 == 0 && s6 == 0 && s7 == 1;
    let (a, b, c, d) = ((s6 / 256) as u8, (s6 % 256) as u8, (s7 / 256) as u8, (s7 % 256) as u8);
    if zero_front && s5 == 0xffff {
        v4_allowed(a, b, c, d)
    } else if s0 == 0x64 && s1 == 0xff9b {
        v4_allowed(a, b, c, d)
    } else if zero_front && s5 == 0 && !loopback && !unspecified {
        v4_allowed(a, b, c, d)
    } else {
        !(unspecified || loopback || (s0 & 0xff00) == 0xff00 || (s0 & 0xfe00) == 0xfc00 || (s0
            & 0xffc0) == 0xfe80)
    }
}

/// Whether this server will open a connection to `ip`.
pub fn allowed(ip: Address) -> (ok: bool)
    ensures
        ok == is_public(ip),
{
    match ip {
        Address::V4(a, b, c, d) => v4_allowed(a, b, c, d),
        Address::V6(s0, s1, s2, s3, s4, s5, s6, s7) => v6_allowed(s0, s1, s2, s3, s4, s5, s6, s7),
    }
}

/// An IPv6 address that carries an IPv4 one is judged on the IPv4 address it carries, in each
/// way it can carry one: mapped, through the NAT64 prefix, and in the compatible form (which
/// leaves out `::` and `::1`, judged as themselves).
pub proof fn carried_v4_is_judged_as_itself(a: u8, b: u8, c: u8, d: u8)
    ensures
        v6_public(0, 0, 0, 0, 0, 0xffff, segment(a, b), segment(c, d))
            == v4_public(a, b, c, d),
        v6_public(0x64, 0xff9b, 0, 0, 0, 0, segment(a, b), segment(c, d))
            == v4_public(a, b, c, d),
        !(a == 0 && b == 0 && c == 0 && d <= 1) ==> v6_public(
            0,
            0,
            0,
            0,
            0,
            0,
            segment(a, b),
            segment(c, d),
        ) == v4_public(a, b, c, d),
{
    let hi = segment(a, b);
    let lo = segment(c, d);
    assert(high(hi) == a && low(hi) == b);
    assert(high(lo) == c && low(lo) == d);
}

/// Why a URL was not fetched. Every variant is a sentence for the person who pasted it, and
/// deliberately vague about which private range was hit.
#[derive(Debug)]
pub enum FetchError {
    NotFetchable,
    NotPublic,
    Unresolvable,
    TooManyRedirects,
    BadRedirect,
    TimedOut,
    NotOk { status: u16 },
    NotAnImage { content_type: String },
    TooLarge,
    Unreachable { detail: String },
}

/// [`FetchError::NotFetchable`].
pub const NOT_FETCHABLE: &'static str = "That is not a URL Lapidary can fetch. Paste the address of an image, starting with http:// or https://.";
/// [`FetchError::NotPublic`].
pub const NOT_PUBLIC: &'static str = "That address is not one this server will fetch from. Lapidary only fetches from the public internet — an address inside a private network, or one that resolves into one, is refused so that a pasted link cannot be used to reach machines behind the server.";
/// [`FetchError::Unresolvable`].
pub const UNRESOLVABLE: &'static str = "That host could not be found. Check the address, and that it is reachable from this server.";
/// [`FetchError::TooManyRedirects`].
pub const TOO_MANY_REDIRECTS: &'static str = "That address redirected more than 3 times, so Lapidary stopped following it. Paste the address of the image itself rather than a link that leads to it.";
/// [`FetchError::BadRedirect`].
pub const BAD_REDIRECT: &'static str = "That address redirected somewhere Lapidary could not read. The `Location` it sent back is not a URL.";
/// [`FetchError::TimedOut`].
pub const TIMED_OUT: &'static str = "That address took longer than 10 seconds to answer, so Lapidary stopped waiting.";
/// [`FetchError::TooLarge`].
pub const TOO_LARGE: &'static str = "That image is larger than the 10 MB limit, so Lapidary stopped downloading it.";

impl FetchError {
    /// The sentence the error is shown as.
    pub open spec fn sentence(&self) -> Seq<char> {
        match self {
            FetchError::NotFetchable => NOT_FETCHABLE@,
            FetchError::NotPublic => NOT_PUBLIC@,
            FetchError::Unresolvable => UNRESOLVABLE@,
            FetchError::TooManyRedirects => TOO_MANY_REDIRECTS@,
            FetchError::BadRedirect => BAD_REDIRECT@,
            FetchError::TimedOut => TIMED_OUT@,
            FetchError::NotOk { status } => "That address answered "@ + decimal(*status as nat)
                + ", so there was nothing to fetch."@,
            FetchError::NotAnImage { content_type } =>
                "That address did not answer with an image — it says it is `"@ + content_type@
                + "`. Paste the address of the image itself; a page that shows an image is not the image."@,
            FetchError::TooLarge => TOO_LARGE@,
            FetchError::Unreachable { detail } => "That address could not be reached: "@
                + detail@,
        }
    }

    /// The error in words, for the person who pasted the URL.
    pub fn message(&self) -> (m: String)
        ensures
            m@ == self.sentence(),
    {
        match self {
            FetchError::NotFetchable => NOT_FETCHABLE.to_owned(),
            FetchError::NotPublic => NOT_PUBLIC.to_owned(),
            FetchError::Unresolvable => UNRESOLVABLE.to_owned(),
            FetchError::TooManyRedirects => TOO_MANY_REDIRECTS.to_owned(),
            FetchError::BadRedirect => BAD_REDIRECT.to_owned(),
            FetchError::TimedOut => TIMED_OUT.to_owned(),
            FetchError::NotOk { status } => {
                let mut m = "That address answered ".to_owned();
                let s = decimal_text(*status as u64);
                push_all(&mut m, s.as_str());
                push_all(&mut m, ", so there was nothing to fetch.");
                m
            },
            FetchError::NotAnImage { content_type } => {
                let mut m = "That address did not answer with an image — it says it is `".to_owned();
                push_all(&mut m, content_type.as_str());
                push_all(
                    &mut m,
                    "`. Paste the address of the image itself; a page that shows an image is not the image.",
                );
                m
            },
            FetchError::TooLarge => TOO_LARGE.to_owned(),
            FetchError::Unreachable { detail } => {
                let mut m = "That address could not be reached: ".to_owned();
                push_all(&mut m, detail.as_str());
                m
            },
        }
    }
}

/// Whether a hop may be made to a URL with this scheme, default-or-given port and host: `http` or
/// `https` only, with a port and a host. Everything else is refused before any lookup.
pub open spec fn hop_port(scheme: Seq<char>, port: Option<u16>, has_host: bool) -> Option<u16> {
    if (scheme == "http"@ || scheme == "https"@) && has_host {
        port
    } else {
        None
    }
}

/// The port to connect to, or [`FetchError::NotFetchable`] for a scheme other than `http` or
/// `https`, a URL with no known port, or one with no host.
pub fn fetchable(scheme: &str, port: Option<u16>, has_host: bool) -> (r: Result<u16, FetchError>)
    ensures
        match hop_port(scheme@, port, has_host) {
            Some(p) => r matches Ok(q) && q == p,
            None => r matches Err(FetchError::NotFetchable),
        },
{
    if !(same_text(scheme, "http") || same_text(scheme, "https")) {
        return Err(FetchError::NotFetchable);
    }
    let p = match port {
        Some(p) => p,
        None => return Err(FetchError::NotFetchable),
    };
    if !has_host {
        return Err(FetchError::NotFetchable);
    }
    Ok(p)
}

/// A URL as `url::Url::parse` reads it, by its serialization, or `None` when it is not one.
pub uninterp spec fn url_parsed(s: Seq<char>) -> Option<Seq<char>>;

/// `location` read against `base` as `url::Url::join` reads it (a relative `Location` is legal),
/// by the joined URL's serialization, or `None` when either does not parse.
pub uninterp spec fn url_joined(base: Seq<char>, location: Seq<char>) -> Option<Seq<char>>;

/// A URL's scheme, as `url::Url::scheme` gives it, or `None` when it does not parse.
pub uninterp spec fn url_scheme(url: Seq<char>) -> Option<Seq<char>>;

/// A URL's port, or its scheme's known default, as `url::Url::port_or_known_default` gives it;
/// `None` when there is neither or it does not parse.
pub uninterp spec fn url_port(url: Seq<char>) -> Option<u16>;

/// A URL's host, as `url::Url::host` tells a name from a literal address; absent when it has
/// none or does not parse.
pub uninterp spec fn url_host(url: Seq<char>) -> HostView;

/// What a URL names as its host.
#[derive(Debug)]
pub enum UrlHost {
    /// A name, to be looked up.
    Name(String),
    /// An address written in the URL, which is not looked up.
    Literal(Address),
    /// No host at all.
    Absent,
}

/// A [`UrlHost`] by its characters.
pub enum HostView {
    Name(Seq<char>),
    Literal(Address),
    Absent,
}

impl View for UrlHost {
    type V = HostView;

    open spec fn view(&self) -> HostView {
        match self {
            UrlHost::Name(n) => HostView::Name(n@),
            UrlHost::Literal(a) => HostView::Literal(*a),
            UrlHost::Absent => HostView::Absent,
        }
    }
}

/// `url::Url::parse(s)`, by the URL's serialization, named by [`url_parsed`].
#[verifier::external_body]
fn parse_url(s: &str) -> (r: Option<String>)
    ensures
        crate::filters::text_of(r) == url_parsed(s@),
{
    url::Url::parse(s).ok().map(|u| u.as_str().to_owned())
}

/// `url::Url::join` of `location` on `base`, by the joined URL's serialization, named by
/// [`url_joined`].
#[verifier::external_body]
fn join_url(base: &str, location: &str) -> (r: Option<String>)
    ensures
        crate::filters::text_of(r) == url_joined(base@, location@),
{
    url::Url::parse(base).ok()?.join(location).ok().map(|u| u.as_str().to_owned())
}

/// `url::Url::scheme` of `url`, named by [`url_scheme`].
#[verifier::external_body]
fn scheme_of(url: &str) -> (r: Option<String>)
    ensures
        crate::filters::text_of(r) == url_scheme(url@),
{
    url::Url::parse(url).ok().map(|u| u.scheme().to_owned())
}

/// `url::Url::port_or_known_default` of `url`, named by [`url_port`].
#[verifier::external_body]
fn port_of(url: &str) -> (r: Option<u16>)
    ensures
        r == url_port(url@),
{
    url::Url::parse(url).ok()?.port_or_known_default()
}

/// `url::Url::host` of `url`, named by [`url_host`].
#[verifier::external_body]
fn host_of(url: &str) -> (r: UrlHost)
    ensures
        r@ == url_host(url@),
{
    let Ok(parsed) = url::Url::parse(url) else { return UrlHost::Absent };
    match parsed.host() {
        Some(url::Host::Domain(name)) => UrlHost::Name(name.to_owned()),
        Some(url::Host::Ipv4(ip)) => {
            let [a, b, c, d] = ip.octets();
            UrlHost::Literal(Address::V4(a, b, c, d))
        },
        Some(url::Host::Ipv6(ip)) => {
            let [s0, s1, s2, s3, s4, s5, s6, s7] = ip.segments();
            UrlHost::Literal(Address::V6(s0, s1, s2, s3, s4, s5, s6, s7))
        },
        None => UrlHost::Absent,
    }
}

/// The URL somebody pasted, as the first hop takes it, or [`FetchError::NotFetchable`] when it is
/// not a URL at all.
pub fn first_url(url: &str) -> (r: Result<String, FetchError>)
    ensures
        match url_parsed(url@) {
            Some(u) => r matches Ok(t) && t@ == u,
            None => r matches Err(FetchError::NotFetchable),
        },
{
    match parse_url(url) {
        Some(u) => Ok(u),
        None => Err(FetchError::NotFetchable),
    }
}

/// Where a hop connects: the host, and the port.
#[derive(Debug)]
pub struct HopTarget {
    pub host: UrlHost,
    pub port: u16,
}

/// Where a hop to `url` connects, checked before anything is looked up: `http` or `https` only,
/// with a port (or the scheme's default) and a host. Everything else is
/// [`FetchError::NotFetchable`].
pub fn hop_target(url: &str) -> (r: Result<HopTarget, FetchError>)
    ensures
        match url_scheme(url@) {
            Some(scheme) => match hop_port(scheme, url_port(url@), !(url_host(url@) is Absent)) {
                Some(p) => r matches Ok(t) && t.port == p && t.host@ == url_host(url@),
                None => r matches Err(FetchError::NotFetchable),
            },
            None => r matches Err(FetchError::NotFetchable),
        },
{
    let scheme = match scheme_of(url) {
        Some(s) => s,
        None => return Err(FetchError::NotFetchable),
    };
    if !(same_text(scheme.as_str(), "http") || same_text(scheme.as_str(), "https")) {
        return Err(FetchError::NotFetchable);
    }
    let port = match port_of(url) {
        Some(p) => p,
        None => return Err(FetchError::NotFetchable),
    };
    let host = host_of(url);
    if let UrlHost::Absent = host {
        return Err(FetchError::NotFetchable);
    }
    Ok(HopTarget { host, port })
}

/// Where a redirect from `current` leads: its `Location` (`None` when it sent none, or none
/// that reads as text) joined to `current`, since a `Location` may be relative; or
/// [`FetchError::BadRedirect`].
pub fn redirect_to(current: &str, location: Option<&str>) -> (r: Result<String, FetchError>)
    ensures
        match location {
            None => r matches Err(FetchError::BadRedirect),
            Some(l) => match url_joined(current@, l@) {
                Some(u) => r matches Ok(t) && t@ == u,
                None => r matches Err(FetchError::BadRedirect),
            },
        },
{
    let l = match location {
        Some(l) => l,
        None => return Err(FetchError::BadRedirect),
    };
    match join_url(current, l) {
        Some(u) => Ok(u),
        None => Err(FetchError::BadRedirect),
    }
}

/// The address a hop connects to, pinned so that no second lookup can answer differently: the
/// first one, when there is one and every one the name resolved to is public.
pub fn pin(addresses: &[Address]) -> (r: Result<Address, FetchError>)
    ensures
        addresses@.len() == 0 ==> r matches Err(FetchError::Unresolvable),
        addresses@.len() > 0 && !(forall|i: int| 0 <= i < addresses@.len() ==> is_public(
            #[trigger] addresses@[i],
        )) ==> r matches Err(FetchError::NotPublic),
        addresses@.len() > 0 && (forall|i: int| 0 <= i < addresses@.len() ==> is_public(
            #[trigger] addresses@[i],
        )) ==> (r matches Ok(a) && a == addresses@[0]),
{
    if addresses.len() == 0 {
        return Err(FetchError::Unresolvable);
    }
    let mut i: usize = 0;
    while i < addresses.len()
        invariant
            i <= addresses@.len(),
            forall|k: int| 0 <= k < i ==> is_public(#[trigger] addresses@[k]),
        decreases addresses@.len() - i,
    {
        if !allowed(addresses[i]) {
            return Err(FetchError::NotPublic);
        }
        i = i + 1;
    }
    Ok(addresses[0])
}

/// What a hop's answer leads to.
#[derive(Debug)]
pub enum Hop {
    /// A redirect: read `Location`, join it to the current URL, and hop again if one is left.
    Redirect,
    /// An image, or an answer that does not say: read the body under the cap.
    Read,
    /// Nothing to fetch here.
    Refuse(FetchError),
}

/// What a hop's status and `Content-Type` lead to: 3xx is a redirect; any other status outside
/// 2xx is refused with it; a type that is given and is not `image/...` is refused with it.
pub open spec fn hop_after(status: u16, content_type: Seq<char>) -> Hop {
    if 300 <= status <= 399 {
        Hop::Redirect
    } else if !(200 <= status <= 299) {
        Hop::Refuse(FetchError::NotOk { status })
    } else if content_type.len() > 0 && !has_prefix(content_type, "image/"@) {
        Hop::Refuse(FetchError::NotAnImage { content_type: arbitrary() })
    } else {
        Hop::Read
    }
}

/// What a hop's answer leads to, from its status and its `Content-Type` (empty when it sent none
/// or none that reads as text). The type is checked and then not trusted: the image's own
/// header decides what it is.
pub fn after_answer(status: u16, content_type: &str) -> (h: Hop)
    ensures
        match hop_after(status, content_type@) {
            Hop::Redirect => h is Redirect,
            Hop::Read => h is Read,
            Hop::Refuse(FetchError::NotOk { status: s }) => h matches Hop::Refuse(
                FetchError::NotOk { status: t },
            ) && t == s,
            Hop::Refuse(_) => h matches Hop::Refuse(FetchError::NotAnImage { content_type: t })
                && t@ == content_type@,
        },
{
    if 300 <= status && status <= 399 {
        return Hop::Redirect;
    }
    if !(200 <= status && status <= 299) {
        return Hop::Refuse(FetchError::NotOk { status });
    }
    let v = crate::text::chars_of(content_type);
    let p = crate::text::chars_of("image/");
    if v.len() > 0 && !crate::text::starts_with(&v, &p) {
        return Hop::Refuse(FetchError::NotAnImage { content_type: content_type.to_owned() });
    }
    Hop::Read
}

/// The requests of one fetch: the first, and one per redirect followed.
pub struct Follow {
    requests: usize,
}

impl Follow {
    #[verifier::type_invariant]
    closed spec fn bounded(self) -> bool {
        self.requests <= MAX_REDIRECTS + 1
    }

    /// How many requests have been answered.
    pub closed spec fn answered(&self) -> nat {
        self.requests as nat
    }

    /// A fetch that has made no request yet.
    pub fn new() -> (f: Follow)
        ensures
            f.answered() == 0,
    {
        Follow { requests: 0 }
    }

    /// Whether another request may be made: the first, and one after each of at most
    /// [`MAX_REDIRECTS`] redirects.
    pub fn may_request(&self) -> (ok: bool)
        ensures
            ok == (self.answered() <= MAX_REDIRECTS),
    {
        self.requests <= MAX_REDIRECTS
    }

    /// How many requests have been answered: however long a chain of redirects, never more than
    /// the first and [`MAX_REDIRECTS`] more.
    pub fn requests(&self) -> (n: usize)
        ensures
            n == self.answered(),
            n <= MAX_REDIRECTS + 1,
    {
        proof {
            use_type_invariant(self);
        }
        self.requests
    }

    /// Where a redirect answered from `current` leads: its `Location` joined to `current`, and
    /// another hop when one is left; [`FetchError::TooManyRedirects`] once the first request and
    /// [`MAX_REDIRECTS`] more have been answered. A `Location` that is missing or does not join is
    /// [`FetchError::BadRedirect`] first, as it is read before the count runs out.
    pub fn redirect(&self, current: &str, location: Option<&str>) -> (r: Result<String, FetchError>)
        ensures
            match location {
                None => r matches Err(FetchError::BadRedirect),
                Some(l) => match url_joined(current@, l@) {
                    None => r matches Err(FetchError::BadRedirect),
                    Some(u) => if self.answered() <= MAX_REDIRECTS {
                        r matches Ok(t) && t@ == u
                    } else {
                        r matches Err(FetchError::TooManyRedirects)
                    },
                },
            },
    {
        let next = match redirect_to(current, location) {
            Ok(next) => next,
            Err(e) => return Err(e),
        };
        if self.may_request() {
            Ok(next)
        } else {
            Err(FetchError::TooManyRedirects)
        }
    }

    /// Count an answered request, and say what it leads to.
    pub fn answer(&mut self, status: u16, content_type: &str) -> (h: Hop)
        requires
            old(self).answered() <= MAX_REDIRECTS,
        ensures
            final(self).answered() == old(self).answered() + 1,
            match hop_after(status, content_type@) {
                Hop::Redirect => h is Redirect,
                Hop::Read => h is Read,
                Hop::Refuse(FetchError::NotOk { status: s }) => h matches Hop::Refuse(
                    FetchError::NotOk { status: t },
                ) && t == s,
                Hop::Refuse(_) => h matches Hop::Refuse(
                    FetchError::NotAnImage { content_type: t },
                ) && t@ == content_type@,
            },
    {
        proof {
            use_type_invariant(&*self);
        }
        self.requests = self.requests + 1;
        after_answer(status, content_type)
    }
}

/// Whether a body that declares `length` may be read at all: a fast refusal for an honest server,
/// and never the guard, since the header is written by whoever wrote the body.
pub fn declared_fits(length: Option<u64>) -> (ok: bool)
    ensures
        ok == !(length matches Some(n) && n > MAX_INPUT_BYTES),
{
    match length {
        Some(n) => n <= MAX_INPUT_BYTES as u64,
        None => true,
    }
}

/// A body read under the cap, chunk by chunk, stopping at the chunk that would pass it.
pub struct CappedBody {
    bytes: Vec<u8>,
}

impl View for CappedBody {
    type V = Seq<u8>;

    closed spec fn view(&self) -> Seq<u8> {
        self.bytes@
    }
}

impl CappedBody {
    #[verifier::type_invariant]
    closed spec fn within_cap(self) -> bool {
        self.bytes@.len() <= MAX_INPUT_BYTES
    }

    /// Nothing read yet.
    pub fn new() -> (b: CappedBody)
        ensures
            b@ == Seq::<u8>::empty(),
    {
        CappedBody { bytes: Vec::new() }
    }

    /// The next chunk, kept when the body still fits the cap with it, refused as
    /// [`FetchError::TooLarge`] otherwise, with nothing of it kept.
    pub fn push(&mut self, chunk: &[u8]) -> (r: Result<(), FetchError>)
        ensures
            old(self)@.len() + chunk@.len() <= MAX_INPUT_BYTES ==> r is Ok && final(self)@ == old(
                self,
            )@ + chunk@,
            old(self)@.len() + chunk@.len() > MAX_INPUT_BYTES ==> (r matches Err(
                FetchError::TooLarge,
            ) && final(self)@ == old(self)@),
    {
        proof {
            use_type_invariant(&*self);
        }
        if chunk.len() > MAX_INPUT_BYTES - self.bytes.len() {
            return Err(FetchError::TooLarge);
        }
        let mut i: usize = 0;
        let mut bytes = Vec::new();
        std::mem::swap(&mut bytes, &mut self.bytes);
        let ghost start = bytes@;
        while i < chunk.len()
            invariant
                i <= chunk@.len(),
                start.len() + chunk@.len() <= MAX_INPUT_BYTES,
                bytes@ == start + chunk@.take(i as int),
            decreases chunk@.len() - i,
        {
            bytes.push(chunk[i]);
            assert(bytes@ =~= start + chunk@.take(i + 1));
            i = i + 1;
        }
        assert(chunk@.take(chunk@.len() as int) =~= chunk@);
        self.bytes = bytes;
        Ok(())
    }

    /// The bytes read, handed over.
    pub fn into_bytes(self) -> (v: Vec<u8>)
        ensures
            v@ == self@,
            v@.len() <= MAX_INPUT_BYTES,
    {
        proof {
            use_type_invariant(&self);
        }
        self.bytes
    }
}

} // verus!
