use axum::http::{HeaderMap, HeaderName, HeaderValue};
use cellerd::headers::{room_for, HeaderInjector, MAX_HEADER_NAMES};
use opentelemetry::propagation::Injector;

fn inject_header(headers: &mut HeaderMap, key: &str, value: &str) {
    HeaderInjector(headers).set(key, value.to_string());
}

#[test]
fn injected_header_is_set() {
    let mut headers = HeaderMap::new();
    inject_header(&mut headers, "Traceparent", "00-ab-cd-01");
    assert_eq!(headers.len(), 1);
    assert_eq!(headers.get("traceparent"), Some(&HeaderValue::from_static("00-ab-cd-01")));
}

#[test]
fn injected_header_replaces_all_values() {
    let mut headers = HeaderMap::new();
    headers.append("tracestate", HeaderValue::from_static("a=1"));
    headers.append("tracestate", HeaderValue::from_static("b=2"));
    headers.append("accept", HeaderValue::from_static("*/*"));
    inject_header(&mut headers, "tracestate", "c=3");
    let values: Vec<&HeaderValue> = headers.get_all("tracestate").iter().collect();
    assert_eq!(values, vec![&HeaderValue::from_static("c=3")]);
    assert_eq!(headers.get("accept"), Some(&HeaderValue::from_static("*/*")));
}

#[test]
fn malformed_names_are_not_injected() {
    let long = "a".repeat(65536);
    for key in ["", "trace parent", "trace:parent", "tr\u{e4}ce", "a\"b", "a\nb", long.as_str()] {
        let mut headers = HeaderMap::new();
        inject_header(&mut headers, key, "value");
        assert!(headers.is_empty(), "{:?}", key);
    }
}

#[test]
fn every_token_character_is_injected() {
    let key = "AZaz09!#$%&'*+-.^_`|~";
    let mut headers = HeaderMap::new();
    inject_header(&mut headers, key, "value");
    let names: Vec<&HeaderName> = headers.keys().collect();
    assert_eq!(names, vec!["azaz09!#$%&'*+-.^_`|~"]);
    let longest = "a".repeat(65535);
    let mut headers = HeaderMap::new();
    inject_header(&mut headers, &longest, "value");
    assert_eq!(headers.len(), 1);
}

#[test]
fn malformed_values_are_not_injected() {
    for value in ["a\nb", "a\r\nb", "\0", "\u{7f}", "\u{1f}"] {
        let mut headers = HeaderMap::new();
        inject_header(&mut headers, "traceparent", value);
        assert!(headers.is_empty(), "{:?}", value);
    }
}

#[test]
fn unusual_values_are_injected() {
    for value in ["", "\t", " ", "~", "z\u{fc}rich"] {
        let mut headers = HeaderMap::new();
        inject_header(&mut headers, "x", value);
        assert_eq!(headers.get("x").map(|v| v.as_bytes()), Some(value.as_bytes()));
    }
}

#[test]
fn room_counts_names_not_values() {
    let mut headers = HeaderMap::new();
    headers.append("a", HeaderValue::from_static("1"));
    headers.append("a", HeaderValue::from_static("2"));
    headers.append("b", HeaderValue::from_static("3"));
    assert!(room_for(&headers, MAX_HEADER_NAMES - 2));
    assert!(!room_for(&headers, MAX_HEADER_NAMES - 1));
    assert!(!room_for(&headers, usize::MAX));
}

#[test]
fn header_map_takes_what_there_is_room_for() {
    let mut headers = HeaderMap::new();
    let mut i = 0;
    while room_for(&headers, 1) {
        inject_header(&mut headers, &format!("x-{}", i), "v");
        i += 1;
    }
    assert_eq!(i, MAX_HEADER_NAMES);
    assert_eq!(headers.keys_len(), MAX_HEADER_NAMES);
}

#[test]
fn headers_are_injected_past_the_sure_room() {
    let mut headers = HeaderMap::new();
    for i in 0..7000 {
        inject_header(&mut headers, &format!("x-{}", i), "v");
    }
    assert!(7000 > MAX_HEADER_NAMES);
    assert_eq!(headers.keys_len(), 7000);
    inject_header(&mut headers, "x-0", "w");
    assert_eq!(headers.keys_len(), 7000);
    assert_eq!(headers.get("x-0"), Some(&HeaderValue::from_static("w")));
}

#[test]
fn full_header_map_is_left_alone() {
    let mut headers = HeaderMap::new();
    let mut i = 0;
    while headers.keys_len() == i {
        inject_header(&mut headers, &format!("x-{}", i), "v");
        i += 1;
    }
    assert!(i > MAX_HEADER_NAMES);
    let full = headers.clone();
    inject_header(&mut headers, "one-more", "v");
    assert_eq!(headers, full);
}
