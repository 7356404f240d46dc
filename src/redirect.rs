//! Rewriting a plaintext request into the `Location` of its HTTPS redirect.
use vstd::prelude::*;
use vstd::string::*;

use crate::text::{decimal, is_digit, lemma_decimal_digits, lemma_replace_all_skip_prefix,
    lemma_replace_all_whole, occurs_at, replace_all, replace_all_exec, u16_to_decimal};

verus! {

/// Status of a permanent redirect.
pub const MOVED_PERMANENTLY: u16 = 301;

/// Status answered when the request cannot be rewritten.
pub const BAD_REQUEST: u16 = 400;

/// The plaintext port and the TLS port.
#[derive(Debug, Clone, Copy, PartialEq, Eq, Structural)]
pub struct Ports {
    pub http: u16,
    pub https: u16,
}

impl Ports {
    /// Creates a new [`Ports`].
    pub fn new(http: u16, https: u16) -> (r: Self)
        ensures
            r.http == http,
            r.https == https,
    {
        Self { http, https }
    }
}

/// Whether `s` parses as the authority (`host[:port]`) part of a URI.
pub uninterp spec fn is_authority(s: Seq<char>) -> bool;

/// Relies on the `FromStr` impl of `http::uri::Authority` (re-exported by
/// axum): whether the text is accepted as a URI authority. Its parser
/// rejects the empty string.
#[verifier::external_body]
fn parses_as_authority(s: &str) -> (r: bool)
    ensures
        r == is_authority(s@),
        s@.len() == 0 ==> !r,
{
    s.parse::<axum::http::uri::Authority>().is_ok()
}

/// The `Host` header with the plaintext port's decimal text replaced, wherever
/// it occurs, by the TLS port's.
pub open spec fn swapped_host(host: Seq<char>, ports: Ports) -> Seq<char> {
    replace_all(host, decimal(ports.http as nat), decimal(ports.https as nat))
}

/// The path-and-query of the target: `/` is put in front where the path is
/// empty (no path-and-query at all, or a query alone).
pub open spec fn target_path(path_and_query: Seq<char>) -> Seq<char> {
    if path_and_query.len() == 0 || path_and_query[0] == '?' {
        seq!['/'] + path_and_query
    } else {
        path_and_query
    }
}

/// The scheme part that every target starts with.
pub open spec fn https_prefix() -> Seq<char> {
    seq!['h', 't', 't', 'p', 's', ':', '/', '/']
}

/// The `Location` of the redirect, or `None` where the rewritten host is no
/// valid authority.
pub open spec fn redirect_location(host: Seq<char>, path_and_query: Seq<char>, ports: Ports) -> Option<Seq<char>> {
    let authority = swapped_host(host, ports);
    if is_authority(authority) {
        Some(https_prefix() + authority + target_path(path_and_query))
    } else {
        None
    }
}

/// Why a request could not be rewritten.
#[derive(Debug, Clone, PartialEq, Eq)]
pub enum RedirectError {
    /// The host, after the port was swapped, is no valid URI authority.
    InvalidAuthority(String),
}

impl RedirectError {
    /// A one-line description for the log.
    pub fn message(&self) -> (r: String)
        ensures
            match self {
                RedirectError::InvalidAuthority(a) => r@ == "invalid authority: "@ + a@,
            },
    {
        match self {
            RedirectError::InvalidAuthority(a) => {
                let mut r = String::from_str("invalid authority: ");
                r.append(a.as_str());
                r
            },
        }
    }
}

/// The `Host` header with the plaintext port's decimal text replaced by the
/// TLS port's, wherever it occurs.
pub fn swap_port(host: &str, ports: Ports) -> (r: String)
    ensures
        r@ == swapped_host(host@, ports),
{
    let http = u16_to_decimal(ports.http);
    let https = u16_to_decimal(ports.https);
    proof {
        lemma_decimal_digits(ports.http as nat);
    }
    replace_all_exec(host, http.as_str(), https.as_str())
}

/// The HTTPS URI for an authority and a request's path-and-query (empty
/// where the request has none).
pub fn https_uri(authority: &str, path_and_query: &str) -> (r: String)
    ensures
        r@ == https_prefix() + authority@ + target_path(path_and_query@),
{
    let prefix = "https://";
    proof {
        reveal_strlit("https://");
        assert(prefix@ =~= https_prefix());
    }
    let mut r = String::from_str(prefix);
    r.append(authority);
    let n = path_and_query.unicode_len();
    if n == 0 {
        r.append("/");
        proof {
            reveal_strlit("/");
            assert(path_and_query@ =~= Seq::<char>::empty());
            assert(seq!['/'] + path_and_query@ =~= "/"@);
        }
    } else {
        let first = path_and_query.get_char(0);
        if first == '?' {
            r.append("/");
            proof {
                reveal_strlit("/");
                assert(r@ + path_and_query@ =~= https_prefix() + authority@ + (seq!['/'] + path_and_query@));
            }
        }
        r.append(path_and_query);
    }
    proof {
        assert(r@ =~= https_prefix() + authority@ + target_path(path_and_query@));
    }
    r
}

/// The redirect target once the rewritten host has been checked: the HTTPS
/// URI where `authority_valid`, else the rewrite error.
pub fn checked_https_uri(authority: String, authority_valid: bool, path_and_query: &str) -> (r: Result<String, RedirectError>)
    ensures
        authority_valid ==> r is Ok && r->Ok_0@ == https_prefix() + authority@ + target_path(path_and_query@),
        !authority_valid ==> r is Err && r->Err_0 is InvalidAuthority && r->Err_0->InvalidAuthority_0@ == authority@,
{
    if authority_valid {
        Ok(https_uri(authority.as_str(), path_and_query))
    } else {
        Err(RedirectError::InvalidAuthority(authority))
    }
}

/// The HTTPS URI that a plaintext request for `path_and_query` (empty where
/// the request has none) with the given `Host` header is sent to.
pub fn make_https(host: &str, path_and_query: &str, ports: Ports) -> (r: Result<String, RedirectError>)
    ensures
        match redirect_location(host@, path_and_query@, ports) {
            Some(loc) => r is Ok && r->Ok_0@ == loc,
            None => r is Err && r->Err_0 is InvalidAuthority && r->Err_0->InvalidAuthority_0@ == swapped_host(
                host@,
                ports,
            ),
        },
{
    let authority = swap_port(host, ports);
    let valid = parses_as_authority(authority.as_str());
    checked_https_uri(authority, valid, path_and_query)
}

/// What the plaintext listener answers: a status and, for a redirect, the
/// `Location` header.
#[derive(Debug, Clone, PartialEq, Eq)]
pub struct RedirectResponse {
    pub status: u16,
    pub location: Option<String>,
}

/// Whether `r` is the answer owed to a request with this `Host` header and
/// path-and-query: a permanent redirect to the HTTPS target, or a bad request
/// where no target can be formed.
pub open spec fn is_redirect_response(r: RedirectResponse, host: Seq<char>, path_and_query: Seq<char>, ports: Ports) -> bool {
    match redirect_location(host, path_and_query, ports) {
        Some(loc) => r.status == MOVED_PERMANENTLY && r.location is Some && r.location->Some_0@ == loc,
        None => r.status == BAD_REQUEST && r.location is None,
    }
}

/// The answer to one plaintext request, with the rewrite error where there is
/// one, for the log.
pub fn redirect_response(host: &str, path_and_query: &str, ports: Ports) -> (r: (RedirectResponse, Option<RedirectError>))
    ensures
        is_redirect_response(r.0, host@, path_and_query@, ports),
        r.1 is Some <==> redirect_location(host@, path_and_query@, ports) is None,
{
    match make_https(host, path_and_query, ports) {
        Ok(location) => (RedirectResponse { status: MOVED_PERMANENTLY, location: Some(location) }, None),
        Err(e) => (RedirectResponse { status: BAD_REQUEST, location: None }, Some(e)),
    }
}


/// For a `Host` header `domain:port` whose domain does not itself hold the
/// plaintext port's decimal text, the rewritten host is `domain:` followed by
/// the TLS port, and the redirect goes to `https://domain:tls_port` followed
/// by the request's path-and-query (`/` in front where its path is empty).
pub proof fn lemma_redirect_swaps_port(domain: Seq<char>, path_and_query: Seq<char>, ports: Ports)
    requires
        forall|i: int| !occurs_at(domain, decimal(ports.http as nat), i),
    ensures
        swapped_host(domain + seq![':'] + decimal(ports.http as nat), ports)
            == domain + seq![':'] + decimal(ports.https as nat),
        redirect_location(domain + seq![':'] + decimal(ports.http as nat), path_and_query, ports) == if is_authority(
            domain + seq![':'] + decimal(ports.https as nat),
        ) {
            Some(https_prefix() + domain + seq![':'] + decimal(ports.https as nat) + target_path(path_and_query))
        } else {
            None::<Seq<char>>
        },
        path_and_query.len() > 0 && path_and_query[0] == '/' ==> target_path(path_and_query) == path_and_query,
{
    let pat = decimal(ports.http as nat);
    let rep = decimal(ports.https as nat);
    lemma_decimal_digits(ports.http as nat);
    let a = domain + seq![':'];
    let s = a + pat;
    assert(domain + seq![':'] + pat == s);
    assert forall|i: int| 0 <= i < a.len() implies !occurs_at(s, pat, i) by {
        if occurs_at(s, pat, i) {
            let d = domain.len() as int;
            if i + pat.len() <= d {
                assert(domain.subrange(i, i + pat.len()) =~= s.subrange(i, i + pat.len()));
                assert(occurs_at(domain, pat, i));
            } else {
                assert(s.subrange(i, i + pat.len())[d - i] == s[d]);
                assert(s[d] == ':');
                assert(is_digit(pat[d - i]));
            }
        }
    }
    lemma_replace_all_skip_prefix(a, pat, pat, rep);
    lemma_replace_all_whole(pat, rep);
    assert(https_prefix() + (a + rep) + target_path(path_and_query)
        =~= https_prefix() + domain + seq![':'] + rep + target_path(path_and_query));
}

/// The answer to a plaintext request depends on the request alone: two
/// answers to the same `Host` header and path-and-query carry the same status
/// and the same `Location`, character for character.
pub proof fn lemma_redirect_response_deterministic(
    r1: RedirectResponse,
    r2: RedirectResponse,
    host: Seq<char>,
    path_and_query: Seq<char>,
    ports: Ports,
)
    requires
        is_redirect_response(r1, host, path_and_query, ports),
        is_redirect_response(r2, host, path_and_query, ports),
    ensures
        r1.status == r2.status,
        r1.location is Some <==> r2.location is Some,
        r1.location is Some ==> r1.location->Some_0@ == r2.location->Some_0@,
{
}

} // verus!
