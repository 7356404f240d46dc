use https_redirect::redirect::{checked_https_uri, https_uri, make_https, swap_port, redirect_response, Ports, RedirectError, BAD_REQUEST, MOVED_PERMANENTLY};

fn standard_ports() -> Ports {
    Ports::new(80, 443)
}

#[test]
fn ports_new_keeps_both_ports() {
    let p = Ports::new(8080, 8443);
    assert_eq!(p.http, 8080);
    assert_eq!(p.https, 8443);
    assert_eq!(p, Ports { http: 8080, https: 8443 });
}

#[test]
fn redirect_swaps_port_and_keeps_path_and_query() {
    let (r, err) = redirect_response("example.com:80", "/foo?x=1", standard_ports());
    assert_eq!(r.status, MOVED_PERMANENTLY);
    assert_eq!(r.status, 301);
    assert_eq!(r.location.as_deref(), Some("https://example.com:443/foo?x=1"));
    assert!(err.is_none());
}

#[test]
fn redirect_defaults_empty_path_to_root() {
    let (r, _) = redirect_response("example.com:80", "", standard_ports());
    assert_eq!(r.location.as_deref(), Some("https://example.com:443/"));
}

#[test]
fn redirect_puts_root_before_a_bare_query() {
    let r = make_https("example.com:80", "?x=1", standard_ports());
    assert_eq!(r, Ok("https://example.com:443/?x=1".to_string()));
}

#[test]
fn redirect_on_custom_ports() {
    let r = make_https("localhost:3000", "/a/b", Ports::new(3000, 3443));
    assert_eq!(r, Ok("https://localhost:3443/a/b".to_string()));
}

#[test]
fn redirect_host_without_port_is_kept() {
    let r = make_https("example.com", "/", standard_ports());
    assert_eq!(r, Ok("https://example.com/".to_string()));
}

#[test]
fn redirect_replaces_every_occurrence_of_the_port_text() {
    let r = make_https("80.example.com:80", "/", standard_ports());
    assert_eq!(r, Ok("https://443.example.com:443/".to_string()));
}

#[test]
fn redirect_invalid_authority_is_bad_request() {
    let (r, err) = redirect_response("exa mple.com:80", "/foo", standard_ports());
    assert_eq!(r.status, BAD_REQUEST);
    assert_eq!(r.status, 400);
    assert!(r.location.is_none());
    assert_eq!(err, Some(RedirectError::InvalidAuthority("exa mple.com:443".to_string())));
}

#[test]
fn redirect_two_port_suffixes_is_bad_request() {
    let r = make_https("localhost:80:3030", "/", standard_ports());
    assert_eq!(r, Err(RedirectError::InvalidAuthority("localhost:443:3030".to_string())));
}

#[test]
fn redirect_empty_host_is_bad_request() {
    let (r, err) = redirect_response("", "/", standard_ports());
    assert_eq!(r.status, 400);
    assert!(err.is_some());
}

#[test]
fn redirect_keeps_serving_after_a_bad_request() {
    let (bad, _) = redirect_response("bad host:80", "/", standard_ports());
    assert_eq!(bad.status, 400);
    let (good, _) = redirect_response("example.com:80", "/next", standard_ports());
    assert_eq!(good.location.as_deref(), Some("https://example.com:443/next"));
}

#[test]
fn redirect_same_request_twice_gives_identical_answers() {
    let a = redirect_response("example.com:80", "/foo?x=1", standard_ports());
    let b = redirect_response("example.com:80", "/foo?x=1", standard_ports());
    assert_eq!(a, b);
}

#[test]
fn redirect_error_message_names_the_authority() {
    let e = RedirectError::InvalidAuthority("a b:443".to_string());
    assert_eq!(e.message(), "invalid authority: a b:443");
}

#[test]
fn swap_port_rewrites_the_host() {
    assert_eq!(swap_port("example.com:80", standard_ports()), "example.com:443");
    assert_eq!(swap_port("example.com:8080", standard_ports()), "example.com:443443");
    assert_eq!(swap_port("example.com", standard_ports()), "example.com");
}

#[test]
fn https_uri_joins_scheme_authority_and_path() {
    assert_eq!(https_uri("example.com:443", "/foo?x=1"), "https://example.com:443/foo?x=1");
    assert_eq!(https_uri("example.com:443", ""), "https://example.com:443/");
    assert_eq!(https_uri("example.com:443", "?q"), "https://example.com:443/?q");
}

#[test]
fn checked_https_uri_follows_the_authority_check() {
    assert_eq!(
        checked_https_uri("h:443".to_string(), true, "/p"),
        Ok("https://h:443/p".to_string())
    );
    assert_eq!(
        checked_https_uri("h:443".to_string(), false, "/p"),
        Err(RedirectError::InvalidAuthority("h:443".to_string()))
    );
}
