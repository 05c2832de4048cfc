use proxide::target::{checked_target, rewrite_target, target_uri, MalformedTarget};

#[test]
fn request_is_forwarded_to_the_upstream_with_its_path_and_query() {
    assert_eq!(
        target_uri("127.0.0.1:9090", Some("/v1/items?x=1")),
        "http://127.0.0.1:9090/v1/items?x=1"
    );
    assert_eq!(
        rewrite_target("127.0.0.1:9090", Some("/v1/items?x=1")),
        Ok("http://127.0.0.1:9090/v1/items?x=1".to_string())
    );
}

#[test]
fn rewritten_target_parses_to_the_upstream_authority() {
    let text = rewrite_target("127.0.0.1:9090", Some("/v1/items?x=1")).unwrap();
    let uri: axum::http::Uri = text.parse().unwrap();
    assert_eq!(uri.scheme_str(), Some("http"));
    assert_eq!(uri.authority().map(|authority| authority.as_str()), Some("127.0.0.1:9090"));
    assert_eq!(uri.path(), "/v1/items");
    assert_eq!(uri.query(), Some("x=1"));
}

#[test]
fn missing_path_defaults_to_the_root() {
    assert_eq!(target_uri("127.0.0.1:9090", None), "http://127.0.0.1:9090/");
    assert_eq!(
        rewrite_target("127.0.0.1:9090", None),
        Ok("http://127.0.0.1:9090/".to_string())
    );
}

#[test]
fn ipv6_upstream_is_a_target() {
    assert_eq!(
        rewrite_target("[::1]:9090", Some("/")),
        Ok("http://[::1]:9090/".to_string())
    );
}

#[test]
fn malformed_upstream_is_refused() {
    assert_eq!(
        rewrite_target("not an address", Some("/x")),
        Err(MalformedTarget { text: "http://not an address/x".to_string() })
    );
    assert_eq!(
        rewrite_target("", None),
        Err(MalformedTarget { text: "http:///".to_string() })
    );
}

#[test]
fn target_text_is_written_even_where_it_is_no_uri() {
    assert_eq!(target_uri("not an address", Some("/x")), "http://not an address/x");
    assert_eq!(target_uri("", Some("")), "http://");
}

#[test]
fn checked_target_follows_the_verdict() {
    assert_eq!(checked_target("http://a/".to_string(), true), Ok("http://a/".to_string()));
    assert_eq!(
        checked_target("http://a/".to_string(), false),
        Err(MalformedTarget { text: "http://a/".to_string() })
    );
}
