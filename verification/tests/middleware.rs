use axum::http::{HeaderMap, HeaderName, HeaderValue};
use cellerd::headers::HeadersFull;
use cellerd::middleware::{
    extract_host, init_request_state, restrict_host, set_visibility_header, HostError, ServerConfig,
};

fn config(allowed: &[&str]) -> ServerConfig {
    ServerConfig {
        allowed_hosts: allowed.iter().map(|h| h.to_string()).collect(),
        api_endpoint: "https://cache.example.org/".to_string(),
        substituter_endpoint: Some("https://cdn.example.org/".to_string()),
    }
}

fn headers(pairs: &[(&'static str, &[u8])]) -> HeaderMap {
    let mut headers = HeaderMap::new();
    for (name, value) in pairs {
        headers.append(*name, HeaderValue::from_bytes(value).unwrap());
    }
    headers
}

#[test]
fn host_is_read_as_text() {
    assert_eq!(extract_host(&headers(&[("host", b"a.example:80")])), Some("a.example:80".to_string()));
    assert_eq!(extract_host(&headers(&[("Host", b"a"), ("host", b"b")])), Some("a".to_string()));
    assert_eq!(extract_host(&headers(&[("host", b"")])), Some(String::new()));
    assert_eq!(extract_host(&headers(&[("host", b"caf\xe9")])), None);
    assert_eq!(extract_host(&headers(&[])), None);
}

#[test]
fn request_state_is_initialized() {
    let request = headers(&[("host", b"cache"), ("x-forwarded-proto", b"https")]);
    let state = init_request_state(&config(&[]), &request);
    assert_eq!(state.api_endpoint, "https://cache.example.org/");
    assert_eq!(state.substituter_endpoint.as_deref(), Some("https://cdn.example.org/"));
    assert_eq!(state.host, "cache");
    assert!(state.client_claims_https);
    assert!(!state.public_cache);
}

#[test]
fn request_state_of_a_bare_request() {
    let mut config = config(&[]);
    config.substituter_endpoint = None;
    let state = init_request_state(&config, &headers(&[]));
    assert_eq!(state.substituter_endpoint, None);
    assert_eq!(state.host, "");
    assert!(!state.client_claims_https);
}

#[test]
fn only_the_exact_scheme_claims_https() {
    for value in [&b"http"[..], b"HTTPS", b"https ", b"httpsx", b"", b"httpz"] {
        let state = init_request_state(&config(&[]), &headers(&[("x-forwarded-proto", value)]));
        assert!(!state.client_claims_https);
    }
    let both = headers(&[("x-forwarded-proto", b"http"), ("x-forwarded-proto", b"https")]);
    assert!(!init_request_state(&config(&[]), &both).client_claims_https);
}

#[test]
fn listed_hosts_are_let_through() {
    let config = config(&["a.example", "b.example"]);
    assert_eq!(restrict_host(&config, &headers(&[("host", b"a.example")])), Ok(()));
    assert_eq!(restrict_host(&config, &headers(&[("host", b"b.example")])), Ok(()));
}

#[test]
fn other_hosts_are_turned_away() {
    let config = config(&["a.example", "b.example"]);
    for host in [&b"c.example"[..], b"A.example", b"a.example:80", b"", b"a.exampl"] {
        assert_eq!(restrict_host(&config, &headers(&[("host", host)])), Err(HostError::BadHost));
    }
    assert_eq!(HostError::BadHost.message(), "Bad Host");
}

#[test]
fn any_host_will_do_without_a_list() {
    assert_eq!(restrict_host(&config(&[]), &headers(&[("host", b"whatever")])), Ok(()));
}

#[test]
fn a_host_is_always_required() {
    for allowed in [&["a.example"][..], &[]] {
        let config = config(allowed);
        assert_eq!(restrict_host(&config, &headers(&[])), Err(HostError::MissingHost));
        assert_eq!(restrict_host(&config, &headers(&[("host", b"\xff")])), Err(HostError::MissingHost));
    }
    assert_eq!(HostError::MissingHost.message(), "Missing Host header");
}

#[test]
fn public_responses_are_marked() {
    let mut response = headers(&[("etag", b"x")]);
    assert_eq!(set_visibility_header(true, &mut response), Ok(()));
    assert_eq!(response.get("X-Celler-Cache-Visibility"), Some(&HeaderValue::from_static("public")));
    assert_eq!(response.len(), 2);
    assert_eq!(set_visibility_header(true, &mut response), Ok(()));
    assert_eq!(response.get_all("x-celler-cache-visibility").iter().count(), 2);
}

#[test]
fn added_visibility_comes_after_what_was_there() {
    let mut response = headers(&[("x-celler-cache-visibility", b"private")]);
    assert_eq!(set_visibility_header(true, &mut response), Ok(()));
    let values: Vec<&HeaderValue> = response.get_all("x-celler-cache-visibility").iter().collect();
    assert_eq!(values, vec!["private", "public"]);
    assert!(!values[1].is_sensitive());
}

#[test]
fn other_responses_are_left_alone() {
    let mut response = headers(&[("etag", b"x")]);
    assert_eq!(set_visibility_header(false, &mut response), Ok(()));
    assert_eq!(response, headers(&[("etag", b"x")]));
}

#[test]
fn full_response_cannot_be_marked() {
    let mut response = HeaderMap::new();
    let mut i = 0;
    while response.keys_len() == i {
        let name = HeaderName::try_from(format!("x-{}", i)).unwrap();
        let _ = response.try_insert(name, HeaderValue::from_static("v"));
        i += 1;
    }
    let full = response.clone();
    assert_eq!(set_visibility_header(true, &mut response), Err(HeadersFull));
    assert_eq!(response, full);
    assert_eq!(set_visibility_header(false, &mut response), Ok(()));
    assert_eq!(response, full);
}
