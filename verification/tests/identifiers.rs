use axum::http::{HeaderMap, HeaderValue};
use cellerd::op_id::OpId;
use cellerd::request_id::{RequestId, MAX_REQUEST_ID_LEN};
use cellerd::request_span::RequestSpan;
use opentelemetry::trace::{TraceId, TracerProvider};
use opentelemetry_sdk::trace::SdkTracerProvider;
use std::sync::OnceLock;
use tracing::callsite::{Callsite, Identifier};
use tracing::field::FieldSet;
use tracing::metadata::Kind;
use tracing::subscriber::Interest;
use tracing::{Level, Metadata, Span};
use tracing_opentelemetry::OpenTelemetrySpanExt;
use tracing_subscriber::layer::SubscriberExt;
use uuid::{Uuid, Variant, Version};

const TRACE: [u8; 16] = [
    0x4b, 0xf9, 0x2f, 0x35, 0x77, 0xb3, 0x4d, 0xa6, 0xa3, 0xce, 0x92, 0x9d, 0x0e, 0x0e, 0x47, 0x36,
];
const SPAN: [u8; 8] = [0x00, 0xf0, 0x67, 0xaa, 0x0b, 0xa9, 0x02, 0xb7];

fn adopted(value: &[u8]) -> Option<String> {
    let mut headers = HeaderMap::new();
    headers.insert("X-Request-Id", HeaderValue::from_bytes(value).unwrap());
    RequestId::from_headers(&headers).map(|id| id.as_str().to_owned())
}

struct TestCallsite(OnceLock<&'static Metadata<'static>>);

impl Callsite for TestCallsite {
    fn set_interest(&self, _: Interest) {}

    fn metadata(&self) -> &Metadata<'_> {
        self.0.get().unwrap()
    }
}

fn new_span() -> Span {
    let callsite: &'static TestCallsite = Box::leak(Box::new(TestCallsite(OnceLock::new())));
    let metadata: &'static Metadata<'static> = Box::leak(Box::new(Metadata::new(
        "http_request",
        "tests",
        Level::INFO,
        None,
        None,
        None,
        FieldSet::new(&[], Identifier(callsite)),
        Kind::SPAN,
    )));
    callsite.0.set(metadata).unwrap();
    Span::new(metadata, &metadata.fields().value_set::<[_; 0]>(&[]))
}

#[test]
fn op_id_of_live_span_is_the_trace_id() {
    let op_id = OpId::from_span_ids(TRACE, SPAN);
    assert_eq!(op_id, OpId::from_bytes(TRACE));
    assert_eq!(op_id.to_string(), "4bf92f35-77b3-4da6-a3ce-929d0e0e4736");
    assert_eq!(op_id.header_value(), b"4bf92f35-77b3-4da6-a3ce-929d0e0e4736");
}

#[test]
fn op_id_without_hyphens_is_the_displayed_trace_id() {
    for trace in [TRACE, [0xff; 16], [1; 16]] {
        let op_id = OpId::from_span_ids(trace, SPAN);
        let shown = TraceId::from_bytes(trace).to_string();
        assert_eq!(op_id.to_string().replace('-', ""), shown);
    }
}

#[test]
fn different_op_ids_read_differently() {
    let mut other = TRACE;
    other[15] ^= 1;
    let text = OpId::from_bytes(TRACE).to_string();
    assert_ne!(text, OpId::from_bytes(other).to_string());
    assert_eq!(Uuid::parse_str(&text).unwrap().into_bytes(), TRACE);
}

#[test]
fn op_id_of_dead_span_is_random() {
    for (trace, span) in [([0; 16], SPAN), (TRACE, [0; 8]), ([0; 16], [0; 8])] {
        let op_id = OpId::from_span_ids(trace, span);
        let uuid = Uuid::parse_str(&op_id.to_string()).unwrap();
        assert_eq!(uuid.get_version(), Some(Version::Random));
        assert_eq!(uuid.get_variant(), Variant::RFC4122);
        assert_ne!(op_id, OpId::from_span_ids(trace, span));
    }
}

#[test]
fn context_is_live_with_a_single_set_bit() {
    let mut trace = [0; 16];
    trace[15] = 1;
    let mut span = [0; 8];
    span[0] = 128;
    assert_eq!(OpId::from_span_ids(trace, span), OpId::from_bytes(trace));
}

#[test]
fn op_id_of_disabled_span_is_random() {
    let span = RequestSpan::new(Span::none());
    assert_eq!(span.ids(), ([0; 16], [0; 8]));
    let op_id = OpId::from_span(&span);
    let uuid = Uuid::parse_str(&op_id.to_string()).unwrap();
    assert_eq!(uuid.get_version(), Some(Version::Random));
    assert_ne!(op_id, OpId::from_span(&span));
}

#[test]
fn op_id_of_exported_span_is_its_trace_id() {
    let provider = SdkTracerProvider::builder().build();
    let layer = tracing_opentelemetry::layer().with_tracer(provider.tracer("tests"));
    let subscriber = tracing_subscriber::registry().with(layer);
    tracing::subscriber::with_default(subscriber, || {
        let span = RequestSpan::new(new_span());
        let op_id = OpId::from_span(&span);
        assert_eq!(op_id, OpId::from_span(&span));
        let context = span.as_span().context();
        let trace_id = opentelemetry::trace::TraceContextExt::span(&context).span_context().trace_id();
        assert_ne!(trace_id, TraceId::INVALID);
        assert_eq!(op_id, OpId::from_bytes(trace_id.to_bytes()));
        let (trace, id) = span.ids();
        assert_eq!(trace, trace_id.to_bytes());
        assert_ne!(id, [0; 8]);
        assert_eq!(op_id, OpId::from_span_ids(trace, id));
    });
}

#[test]
fn safe_request_id_is_adopted() {
    for value in ["a", "req-42", "!~", "f81d4fae-7dec-11d0-a765-00a0c91e6bf6"] {
        assert_eq!(adopted(value.as_bytes()).as_deref(), Some(value));
    }
}

#[test]
fn request_id_length_is_bounded() {
    assert_eq!(MAX_REQUEST_ID_LEN, 128);
    let longest = "x".repeat(128);
    assert_eq!(adopted(longest.as_bytes()), Some(longest.clone()));
    assert_eq!(adopted("x".repeat(129).as_bytes()), None);
    assert_eq!(adopted(b""), None);
}

#[test]
fn request_id_with_invisible_bytes_is_refused() {
    for value in [&b"a b"[..], b" ", b"a\tb", b"\xff", b"caf\xc3\xa9", b"a "] {
        assert_eq!(adopted(value), None);
    }
}

#[test]
fn missing_request_id_is_not_adopted() {
    assert!(RequestId::from_headers(&HeaderMap::new()).is_none());
}

#[test]
fn first_request_id_counts() {
    let mut headers = HeaderMap::new();
    headers.append("x-request-id", HeaderValue::from_static("first"));
    headers.append("x-request-id", HeaderValue::from_static("second"));
    assert_eq!(RequestId::from_headers(&headers).unwrap().as_str(), "first");
    let mut headers = HeaderMap::new();
    headers.append("x-request-id", HeaderValue::from_static("not safe"));
    headers.append("x-request-id", HeaderValue::from_static("second"));
    assert!(RequestId::from_headers(&headers).is_none());
}

#[test]
fn generated_request_id_is_a_fresh_uuid() {
    let id = RequestId::generate();
    assert_eq!(id.as_str().len(), 36);
    assert_eq!(id.as_str(), id.as_str().to_lowercase());
    assert_eq!(Uuid::parse_str(id.as_str()).unwrap().get_version(), Some(Version::Random));
    assert_ne!(id.as_str(), RequestId::generate().as_str());
    assert_eq!(adopted(id.as_str().as_bytes()), Some(id.to_string()));
}

#[test]
fn request_id_from_uuid() {
    let id = RequestId::from_uuid(TRACE);
    assert_eq!(id.as_str(), "4bf92f35-77b3-4da6-a3ce-929d0e0e4736");
    assert_eq!(id.to_string(), id.as_str());
    assert_eq!(id.clone().as_str(), id.as_str());
    assert_eq!(id.header_value(), id.as_str().as_bytes());
}

#[test]
fn request_id_is_replaced_when_unsafe() {
    let mut headers = HeaderMap::new();
    headers.insert("x-request-id", HeaderValue::from_static("not safe"));
    let id = RequestId::for_headers(&headers);
    assert_eq!(Uuid::parse_str(id.as_str()).unwrap().get_version(), Some(Version::Random));
    headers.insert("x-request-id", HeaderValue::from_static("safe"));
    assert_eq!(RequestId::for_headers(&headers).as_str(), "safe");
}
