use statsd_sink::endpoint::{Endpoint, EndpointError};

#[test]
fn missing_scheme_defaults_to_https() {
    let e = Endpoint::from_str("example.com").unwrap();
    assert_eq!(e.scheme.as_str(), "https");
    assert_eq!(e.authority.as_str(), "example.com");
    assert_eq!(e.host(), "example.com");
}

#[test]
fn explicit_scheme_is_kept() {
    let e = Endpoint::from_str("http://example.com:8080/base").unwrap();
    assert_eq!(e.scheme.as_str(), "http");
    assert_eq!(e.authority.as_str(), "example.com:8080");
    assert_eq!(e.host(), "example.com");
    assert_eq!(e.path.as_str(), "/base");
}

#[test]
fn query_is_rejected() {
    assert_eq!(
        Endpoint::from_str("https://example.com/path?q=1"),
        Err(EndpointError::HasQuery)
    );
}

#[test]
fn missing_authority_is_rejected() {
    assert_eq!(
        Endpoint::from_str("/only/a/path"),
        Err(EndpointError::MissingAuthority)
    );
}

#[test]
fn unparsable_input_is_rejected() {
    assert_eq!(
        Endpoint::from_str("not a uri"),
        Err(EndpointError::Invalid)
    );
}

#[test]
fn from_static_accepts_a_valid_endpoint() {
    let e = Endpoint::from_static("https://collector.example:9999").unwrap();
    assert_eq!(e.host(), "collector.example");
    assert_eq!(
        e.to_uri_string().as_str(),
        "https://collector.example:9999/"
    );
}

#[test]
fn join_is_insensitive_to_seam_slashes() {
    let with_slash = Endpoint::from_str("https://h/a/").unwrap();
    let without_slash = Endpoint::from_str("https://h/a").unwrap();
    let u1 = with_slash.build_uri("/x", "").unwrap();
    let u2 = without_slash.build_uri("x", "").unwrap();
    assert_eq!(u1.path(), "/a/x");
    assert_eq!(u1, u2);
}

#[test]
fn empty_base_path_does_not_double_the_slash() {
    let explicit = Endpoint::from_str("https://h").unwrap();
    assert_eq!(explicit.build_uri("x", "").unwrap().path(), "/x");
    let normalized = Endpoint::from_str("h2.example.com").unwrap();
    assert_eq!(normalized.build_uri("/y", "").unwrap().path(), "/y");
}

#[test]
fn empty_query_is_omitted() {
    let e = Endpoint::from_str("https://h/base").unwrap();
    let without = e.build_uri("sub", "").unwrap();
    let with = e.build_uri("sub", "k=v").unwrap();
    assert_eq!(without.query(), None);
    assert_eq!(with.query(), Some("k=v"));
    assert_eq!(with.path(), "/base/sub");
}

#[test]
fn build_uri_rejects_an_illegal_target() {
    let e = Endpoint::from_str("https://h").unwrap();
    assert_eq!(e.build_uri("a b", ""), Err(EndpointError::Invalid));
}

#[test]
fn build_uri_static_joins_like_build_uri() {
    let e = Endpoint::from_str("https://h/v1/").unwrap();
    let u = e.build_uri_static("/push").unwrap();
    assert_eq!(u.path(), "/v1/push");
    assert_eq!(u.to_string(), "https://h/v1/push");
}
