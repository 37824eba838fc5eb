use axum::http::{HeaderMap, HeaderName, HeaderValue};
use cellerd::api::{CELLER_OP_ID, REQUEST_ID};
use cellerd::correlation::{
    correlate, correlate_ids, finish_response, request_fields, response_fields, write_headers,
    write_headers_with,
};
use cellerd::headers::HeadersFull;
use cellerd::op_id::OpId;
use cellerd::request_id::RequestId;
use cellerd::request_span::RequestSpan;
use opentelemetry::global;
use opentelemetry::trace::TracerProvider;
use opentelemetry_sdk::propagation::TraceContextPropagator;
use opentelemetry_sdk::trace::SdkTracerProvider;
use std::sync::OnceLock;
use tracing::callsite::{Callsite, Identifier};
use tracing::field::FieldSet;
use tracing::metadata::Kind;
use tracing::subscriber::Interest;
use tracing::{Level, Metadata, Span};
use tracing_subscriber::layer::SubscriberExt;
use uuid::{Uuid, Version};

const TRACE: [u8; 16] = [
    0x4b, 0xf9, 0x2f, 0x35, 0x77, 0xb3, 0x4d, 0xa6, 0xa3, 0xce, 0x92, 0x9d, 0x0e, 0x0e, 0x47, 0x36,
];
const SPAN: [u8; 8] = [0x00, 0xf0, 0x67, 0xaa, 0x0b, 0xa9, 0x02, 0xb7];
const OP_ID: &str = "4bf92f35-77b3-4da6-a3ce-929d0e0e4736";

fn request(id: &'static str) -> HeaderMap {
    let mut headers = HeaderMap::new();
    headers.insert("x-request-id", HeaderValue::from_static(id));
    headers
}

fn pairs(pairs: &[(&str, &str)]) -> Vec<(String, String)> {
    pairs.iter().map(|(name, value)| (name.to_string(), value.to_string())).collect()
}

fn full_headers() -> HeaderMap {
    let mut headers = HeaderMap::new();
    let mut i = 0;
    while headers.keys_len() == i {
        let name = HeaderName::try_from(format!("x-{}", i)).unwrap();
        let _ = headers.try_insert(name, HeaderValue::from_static("v"));
        i += 1;
    }
    headers
}

fn values<'a>(headers: &'a HeaderMap, name: &str) -> Vec<&'a [u8]> {
    headers.get_all(name).iter().map(|v| v.as_bytes()).collect()
}

struct TestCallsite(OnceLock<&'static Metadata<'static>>);

impl Callsite for TestCallsite {
    fn set_interest(&self, _: Interest) {}

    fn metadata(&self) -> &Metadata<'_> {
        self.0.get().unwrap()
    }
}

fn new_span() -> Span {
    let callsite: &'static TestCallsite = Box::leak(Box::new(TestCallsite(OnceLock::new())));
    let metadata: &'static Metadata<'static> = Box::leak(Box::new(Metadata::new(
        "http_request",
        "tests",
        Level::INFO,
        None,
        None,
        None,
        FieldSet::new(&[], Identifier(callsite)),
        Kind::SPAN,
    )));
    callsite.0.set(metadata).unwrap();
    Span::new(metadata, &metadata.fields().value_set::<[_; 0]>(&[]))
}

#[test]
fn header_names() {
    assert_eq!(CELLER_OP_ID, "X-Celler-Op-Id");
    assert_eq!(REQUEST_ID, "X-Request-Id");
}

#[test]
fn request_is_described() {
    let mut headers = HeaderMap::new();
    headers.insert("user-agent", HeaderValue::from_static("Nix/2.18"));
    let fields = request_fields("GET", "/nix-cache-info", &headers);
    assert_eq!(fields.otel_name, "GET /nix-cache-info");
    assert_eq!(fields.otel_kind, "server");
    assert_eq!(fields.method, "GET");
    assert_eq!(fields.path, "/nix-cache-info");
    assert_eq!(fields.user_agent, "Nix/2.18");
}

#[test]
fn unreadable_user_agent_is_left_empty() {
    let mut headers = HeaderMap::new();
    assert_eq!(request_fields("PUT", "/", &headers).user_agent, "");
    headers.insert("user-agent", HeaderValue::from_bytes(b"caf\xc3\xa9").unwrap());
    assert_eq!(request_fields("PUT", "/", &headers).user_agent, "");
    headers.insert("user-agent", HeaderValue::from_static("a\tb c"));
    assert_eq!(request_fields("PUT", "/", &headers).user_agent, "a\tb c");
}

#[test]
fn identifiers_come_from_span_and_request_id() {
    let correlation = correlate_ids(TRACE, SPAN, &request("abc"));
    assert_eq!(correlation.op_id, OpId::from_bytes(TRACE));
    assert_eq!(correlation.request_id.as_str(), "abc");
    let fields = correlation.fields();
    assert_eq!(fields.op_id, OP_ID);
    assert_eq!(fields.request_id, "abc");
    let copy = correlation.clone();
    assert_eq!(copy.op_id, correlation.op_id);
    assert_eq!(copy.request_id.as_str(), "abc");
}

#[test]
fn inbound_traceparent_is_not_adopted() {
    let mut headers = request("abc");
    headers.insert(
        "traceparent",
        HeaderValue::from_static("00-0af7651916cd43dd8448eb211c80319c-b7ad6b7169203331-01"),
    );
    let correlation = correlate_ids(TRACE, SPAN, &headers);
    assert_eq!(correlation.op_id.to_string(), OP_ID);
    assert_eq!(correlation.request_id.as_str(), "abc");
    let random = correlate(&RequestSpan::new(Span::none()), &headers);
    assert_ne!(random.op_id.to_string(), "0af76519-16cd-43dd-8448-eb211c80319c");
    let uuid = Uuid::parse_str(&random.op_id.to_string()).unwrap();
    assert_eq!(uuid.get_version(), Some(Version::Random));
    assert_eq!(random.request_id.as_str(), "abc");
}

#[test]
fn response_carries_identifiers_once() {
    let correlation = correlate_ids(TRACE, SPAN, &request("abc"));
    let mut headers = HeaderMap::new();
    headers.append("x-request-id", HeaderValue::from_static("stale"));
    headers.append("x-request-id", HeaderValue::from_static("staler"));
    headers.append("x-celler-op-id", HeaderValue::from_static("stale"));
    headers.append("content-type", HeaderValue::from_static("text/plain"));
    assert_eq!(write_headers_with(&correlation, &vec![], &mut headers), Ok(()));
    assert_eq!(values(&headers, "x-request-id"), vec![b"abc"]);
    assert_eq!(values(&headers, "x-celler-op-id"), vec![OP_ID.as_bytes()]);
    assert_eq!(values(&headers, "content-type"), vec![b"text/plain"]);
    assert_eq!(headers.len(), 3);
    let once = headers.clone();
    assert_eq!(write_headers_with(&correlation, &vec![], &mut headers), Ok(()));
    assert_eq!(headers, once);
}

#[test]
fn request_id_keeps_its_mark() {
    let mut value = HeaderValue::from_static("abc");
    value.set_sensitive(true);
    let mut inbound = HeaderMap::new();
    inbound.insert("x-request-id", value.clone());
    let correlation = correlate_ids(TRACE, SPAN, &inbound);
    assert!(correlation.request_id.is_sensitive());
    assert!(correlation.clone().request_id.is_sensitive());
    let mut headers = HeaderMap::new();
    headers.insert("x-celler-op-id", value.clone());
    headers.insert("b3", value);
    let propagated = pairs(&[("b3", "0")]);
    assert_eq!(write_headers_with(&correlation, &propagated, &mut headers), Ok(()));
    assert_eq!(values(&headers, "x-request-id"), vec![b"abc"]);
    assert!(headers["x-request-id"].is_sensitive());
    assert!(!headers["x-celler-op-id"].is_sensitive());
    assert!(!headers["b3"].is_sensitive());
    let correlation = correlate_ids(TRACE, SPAN, &request("abc"));
    assert_eq!(write_headers_with(&correlation, &propagated, &mut headers), Ok(()));
    assert!(!headers["x-request-id"].is_sensitive());
    assert!(!RequestId::generate().is_sensitive());
}

#[test]
fn returned_request_id_is_adopted_again() {
    let correlation = correlate_ids(TRACE, SPAN, &HeaderMap::new());
    let mut headers = HeaderMap::new();
    assert_eq!(write_headers_with(&correlation, &vec![], &mut headers), Ok(()));
    let again = RequestId::from_headers(&headers).unwrap();
    assert_eq!(again.as_str(), correlation.request_id.as_str());
}

#[test]
fn response_reads_as_recorded() {
    let correlation = correlate_ids([0; 16], SPAN, &HeaderMap::new());
    let fields = correlation.fields();
    let mut headers = HeaderMap::new();
    assert_eq!(write_headers_with(&correlation, &vec![], &mut headers), Ok(()));
    assert_eq!(headers[CELLER_OP_ID].to_str().unwrap(), fields.op_id);
    assert_eq!(headers[REQUEST_ID].to_str().unwrap(), fields.request_id);
}

#[test]
fn trace_context_is_written_beside_the_identifiers() {
    let correlation = correlate_ids(TRACE, SPAN, &request("abc"));
    let traceparent = "00-4bf92f3577b34da6a3ce929d0e0e4736-00f067aa0ba902b7-01";
    let propagated = pairs(&[("traceparent", traceparent), ("tracestate", "")]);
    let mut headers = HeaderMap::new();
    headers.append("traceparent", HeaderValue::from_static("stale"));
    headers.append("traceparent", HeaderValue::from_static("staler"));
    assert_eq!(write_headers_with(&correlation, &propagated, &mut headers), Ok(()));
    assert_eq!(values(&headers, "traceparent"), vec![traceparent.as_bytes()]);
    assert_eq!(values(&headers, "tracestate"), vec![b""]);
    assert_eq!(values(&headers, "x-request-id"), vec![b"abc"]);
    assert_eq!(values(&headers, "x-celler-op-id"), vec![OP_ID.as_bytes()]);
    assert_eq!(headers.len(), 4);
    let once = headers.clone();
    assert_eq!(write_headers_with(&correlation, &propagated, &mut headers), Ok(()));
    assert_eq!(headers, once);
}

#[test]
fn propagator_does_not_set_identifiers() {
    let correlation = correlate_ids(TRACE, SPAN, &request("abc"));
    let propagated = pairs(&[
        ("x-request-id", "other"),
        ("X-Celler-Op-Id", "other"),
        ("X-REQUEST-ID", "other"),
        ("x-request-ids", "kept"),
        ("x-request-i\u{130}", "malformed"),
        ("b3", "first"),
        ("B3", "second"),
        ("b\n3", "malformed"),
    ]);
    let mut headers = HeaderMap::new();
    assert_eq!(write_headers_with(&correlation, &propagated, &mut headers), Ok(()));
    assert_eq!(values(&headers, "x-request-id"), vec![b"abc"]);
    assert_eq!(values(&headers, "x-celler-op-id"), vec![OP_ID.as_bytes()]);
    assert_eq!(values(&headers, "x-request-ids"), vec![b"kept"]);
    assert_eq!(values(&headers, "b3"), vec![b"second"]);
    assert_eq!(headers.len(), 4);
}

#[test]
fn full_response_is_not_written() {
    let correlation = correlate_ids(TRACE, SPAN, &request("abc"));
    let mut headers = full_headers();
    let full = headers.clone();
    assert_eq!(write_headers_with(&correlation, &vec![], &mut headers), Err(HeadersFull));
    assert_eq!(headers, full);
    let span = RequestSpan::new(Span::none());
    assert_eq!(write_headers(&span, &correlation, &mut headers), Err(HeadersFull));
    assert!(finish_response(&span, &correlation, 200, &mut headers).is_err());
    assert_eq!(headers, full);
    headers.remove("x-0");
    assert_eq!(write_headers_with(&correlation, &vec![], &mut headers), Err(HeadersFull));
    assert_eq!(values(&headers, "x-celler-op-id"), vec![OP_ID.as_bytes()]);
    assert_eq!(values(&headers, "x-request-id"), Vec::<&[u8]>::new());
    headers.remove("x-1");
    headers.remove("x-4");
    let propagated = pairs(&[("x-2", "set"), ("b3", "set"), ("x-3", "refused")]);
    assert_eq!(write_headers_with(&correlation, &propagated, &mut headers), Err(HeadersFull));
    assert_eq!(values(&headers, "x-request-id"), vec![b"abc"]);
    assert_eq!(values(&headers, "x-2"), vec![b"set"]);
    assert_eq!(values(&headers, "b3"), vec![b"set"]);
    assert_eq!(values(&headers, "x-3"), vec![b"v"]);
}

#[test]
fn only_server_faults_fail_the_trace() {
    for status in [100, 200, 301, 401, 404, 499, 600, 999] {
        let fields = response_fields(status);
        assert_eq!(fields.status_code, status);
        assert_eq!(fields.otel_status_code, None);
    }
    for status in [500, 503, 599] {
        let fields = response_fields(status);
        assert_eq!(fields.status_code, status);
        assert_eq!(fields.otel_status_code, Some("ERROR"));
    }
}

#[test]
fn finished_response_is_described_and_marked() {
    let correlation = correlate_ids(TRACE, SPAN, &request("abc"));
    let mut headers = HeaderMap::new();
    let span = RequestSpan::new(Span::none());
    let fields = finish_response(&span, &correlation, 502, &mut headers).unwrap();
    assert_eq!(fields.status_code, 502);
    assert_eq!(fields.otel_status_code, Some("ERROR"));
    assert_eq!(values(&headers, "x-request-id"), vec![b"abc"]);
    assert_eq!(values(&headers, "x-celler-op-id"), vec![OP_ID.as_bytes()]);
    assert_eq!(headers.len(), 2);
}

#[test]
fn trace_context_of_exported_span_is_written() {
    global::set_text_map_propagator(TraceContextPropagator::new());
    let provider = SdkTracerProvider::builder().build();
    let layer = tracing_opentelemetry::layer().with_tracer(provider.tracer("tests"));
    let subscriber = tracing_subscriber::registry().with(layer);
    tracing::subscriber::with_default(subscriber, || {
        let span = RequestSpan::new(new_span());
        let mut request = request("abc");
        request.insert(
            "traceparent",
            HeaderValue::from_static("00-0af7651916cd43dd8448eb211c80319c-b7ad6b7169203331-01"),
        );
        let correlation = correlate(&span, &request);
        let mut headers = HeaderMap::new();
        assert_eq!(write_headers(&span, &correlation, &mut headers), Ok(()));
        let op_id = correlation.op_id.to_string();
        let (trace_id, span_id) = span.ids();
        assert_eq!(correlation.op_id, OpId::from_bytes(trace_id));
        let id = u64::from_be_bytes(span_id);
        let traceparent = format!("00-{}-{:016x}-01", op_id.replace('-', ""), id);
        assert_eq!(values(&headers, "traceparent"), vec![traceparent.as_bytes()]);
        assert_ne!(&traceparent[3..35], "0af7651916cd43dd8448eb211c80319c");
        assert_eq!(values(&headers, "x-celler-op-id"), vec![op_id.as_bytes()]);
        assert_eq!(values(&headers, "x-request-id"), vec![b"abc"]);
        assert_eq!(headers.len(), 4);
        let expected = pairs(&[("traceparent", traceparent.as_str()), ("tracestate", "")]);
        assert_eq!(span.propagated_headers(), &expected);
        let once = headers.clone();
        assert_eq!(write_headers(&span, &correlation, &mut headers), Ok(()));
        assert_eq!(headers, once);
    });
}

#[test]
fn no_trace_context_without_propagator() {
    let correlation = correlate_ids(TRACE, SPAN, &request("abc"));
    let mut headers = HeaderMap::new();
    let span = RequestSpan::new(Span::none());
    assert_eq!(write_headers(&span, &correlation, &mut headers), Ok(()));
    assert_eq!(headers.len(), 2);
}
