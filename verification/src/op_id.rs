//! Identifiers that the server assigns to requests.
use crate::headers::valid_header_value;
use crate::request_span::{is_exported_as, RequestSpan};
use crate::text::{ascii_bytes, law_ascii_keeps_codes, lemma_bytes_of_text};
use crate::uuid_text::{
    hyphenated, is_drawn, is_random_uuid, is_zero, law_drawn_bytes_are_a_random_uuid,
    law_drawn_bytes_are_an_outcome, lemma_hyphenated_is_visible, lemma_outcome_is_drawn,
    lemma_random_is_not_zero, random_uuid, uuid_to_text,
};
use opentelemetry::trace::{SpanContext, SpanId, TraceFlags, TraceId, TraceState};
use vstd::prelude::*;

verus! {

/// Whether a trace ID and a span ID name a live span: neither is all zeros.
pub open spec fn is_live_context(trace_id: Seq<u8>, span_id: Seq<u8>) -> bool {
    !is_zero(trace_id) && !is_zero(span_id)
}

/// Draws the bytes of an op ID.
fn draw_op_id() -> (bytes: [u8; 16])
    ensures
        is_drawn(bytes@),
        is_random_uuid(bytes@),
{
    let bytes = random_uuid();
    proof {
        lemma_outcome_is_drawn(bytes);
    }
    bytes
}

/// Whether these bytes were drawn for an op ID, and not for anything else.
pub closed spec fn is_drawn_op_id(bytes: Seq<u8>) -> bool {
    exists|drawn: [u8; 16]| #[trigger] call_ensures(draw_op_id, (), drawn) && drawn@ == bytes
}

/// Whether an op ID may be given to a request whose span has these IDs: the
/// trace ID under a live span, a UUID that was drawn at random for it otherwise.
pub open spec fn is_op_id_for(op_id: Seq<u8>, trace_id: Seq<u8>, span_id: Seq<u8>) -> bool {
    if is_live_context(trace_id, span_id) {
        op_id == trace_id
    } else {
        is_drawn_op_id(op_id)
    }
}

/// `SpanContext::is_valid`: a span context is valid when neither its trace ID
/// nor its span ID is zero.
#[verifier::external_body]
fn context_is_valid(trace_id: &[u8; 16], span_id: &[u8; 8]) -> (valid: bool)
    ensures
        valid == is_live_context(trace_id@, span_id@),
{
    SpanContext::new(
        TraceId::from_bytes(*trace_id),
        SpanId::from_bytes(*span_id),
        TraceFlags::default(),
        false,
        TraceState::default(),
    ).is_valid()
}

/// A server-assigned identifier for a single request.
///
/// Under OTLP export this is the OpenTelemetry trace ID reinterpreted as a
/// UUID, which makes the ID a user quotes directly usable as a trace lookup.
/// Without a live exporter it is a random v4 UUID that still ties a response to
/// its log lines.
#[derive(Debug, Clone, Copy, PartialEq, Eq, Hash)]
pub struct OpId {
    bytes: [u8; 16],
}

impl View for OpId {
    type V = Seq<u8>;

    closed spec fn view(&self) -> Seq<u8> {
        self.bytes@
    }
}

impl OpId {
    /// An op ID is made of sixteen bytes.
    pub proof fn lemma_len(self)
        ensures
            self@.len() == 16,
    {
    }

    /// The op ID with the given bytes.
    pub fn from_bytes(bytes: [u8; 16]) -> (op_id: OpId)
        ensures
            op_id@ == bytes@,
    {
        OpId { bytes }
    }

    /// The op ID of a request whose span is exported under the given IDs.
    pub fn from_span_ids(trace_id: [u8; 16], span_id: [u8; 8]) -> (op_id: OpId)
        ensures
            is_op_id_for(op_id@, trace_id@, span_id@),
            op_id@.len() == 16,
            !is_zero(op_id@),
    {
        if context_is_valid(&trace_id, &span_id) {
            OpId::from_bytes(trace_id)
        } else {
            let bytes = draw_op_id();
            proof {
                assert(call_ensures(draw_op_id, (), bytes));
                lemma_random_is_not_zero(bytes@);
            }
            OpId::from_bytes(bytes)
        }
    }

    /// The op ID of the request that the span belongs to.
    pub fn from_span(span: &RequestSpan) -> (op_id: OpId)
        ensures
            is_exported_as(span.span(), span.trace_id(), span.span_id()),
            is_op_id_for(op_id@, span.trace_id(), span.span_id()),
            op_id@.len() == 16,
            !is_zero(op_id@),
    {
        let (trace_id, span_id) = span.ids();
        OpId::from_span_ids(trace_id, span_id)
    }

    /// The op ID as users see it: a hyphenated UUID.
    pub fn to_string(&self) -> (text: String)
        ensures
            text@ == hyphenated(self@),
    {
        uuid_to_text(&self.bytes)
    }

    /// The op ID as the value of a header.
    pub fn header_value(&self) -> (value: Vec<u8>)
        ensures
            value@ == ascii_bytes(hyphenated(self@)),
            valid_header_value(value@),
    {
        let text = uuid_to_text(&self.bytes);
        proof {
            lemma_hyphenated_is_visible(self@);
            lemma_bytes_of_text(text@);
        }
        text.as_str().as_bytes_vec()
    }
}

/// Under a live span, one whose trace ID and span ID each have a byte that is
/// not zero, the op ID is the trace ID.
pub proof fn law_op_id_of_live_span_is_its_trace_id(
    op_id: Seq<u8>,
    trace_id: Seq<u8>,
    span_id: Seq<u8>,
    i: int,
    j: int,
)
    requires
        is_op_id_for(op_id, trace_id, span_id),
        0 <= i < trace_id.len() && trace_id[i] != 0,
        0 <= j < span_id.len() && span_id[j] != 0,
    ensures
        op_id == trace_id,
{
}

/// Without a live span, where the trace ID or the span ID is all zeros, the op
/// ID is the outcome of a draw of its own: no bytes that were chosen in another
/// way will do, nor any that were drawn for something else.
proof fn law_op_id_without_live_span_is_drawn(
    op_id: Seq<u8>,
    trace_id: Seq<u8>,
    span_id: Seq<u8>,
)
    requires
        is_op_id_for(op_id, trace_id, span_id),
        (forall|i: int| 0 <= i < trace_id.len() ==> #[trigger] trace_id[i] == 0) || (forall|j: int|
            0 <= j < span_id.len() ==> #[trigger] span_id[j] == 0),
    ensures
        exists|drawn: [u8; 16]| #[trigger] call_ensures(draw_op_id, (), drawn) && drawn@ == op_id,
        is_drawn(op_id),
        exists|drawn: [u8; 16]| #[trigger] call_ensures(random_uuid, (), drawn) && drawn@ == op_id,
{
    law_drawn_bytes_are_an_outcome(op_id);
}

/// Without a live span the op ID is a UUID that was drawn at random for it.
pub proof fn law_op_id_without_live_span_is_random(
    op_id: Seq<u8>,
    trace_id: Seq<u8>,
    span_id: Seq<u8>,
)
    requires
        is_op_id_for(op_id, trace_id, span_id),
        (forall|i: int| 0 <= i < trace_id.len() ==> #[trigger] trace_id[i] == 0) || (forall|j: int|
            0 <= j < span_id.len() ==> #[trigger] span_id[j] == 0),
    ensures
        is_drawn_op_id(op_id),
        is_drawn(op_id),
        op_id.len() == 16,
        0x40 <= op_id[6] <= 0x4f,
        0x80 <= op_id[8] <= 0xbf,
{
    law_op_id_without_live_span_is_drawn(op_id, trace_id, span_id);
    law_drawn_bytes_are_a_random_uuid(op_id);
}

/// `OpId::from_span_ids` gives the trace ID under a live span, and otherwise a UUID
/// that was drawn at random for it.
pub proof fn law_op_id_goes_by_the_span(
    trace_id: [u8; 16],
    span_id: [u8; 8],
    op_id: OpId,
)
    requires
        call_ensures(OpId::from_span_ids, (trace_id, span_id), op_id),
    ensures
        (exists|i: int| 0 <= i < 16 && #[trigger] trace_id@[i] != 0) && (exists|j: int|
            0 <= j < 8 && #[trigger] span_id@[j] != 0) ==> op_id@ == trace_id@,
        (forall|i: int| 0 <= i < 16 ==> #[trigger] trace_id@[i] == 0) || (forall|j: int|
            0 <= j < 8 ==> #[trigger] span_id@[j] == 0) ==> is_drawn_op_id(op_id@) && is_drawn(
            op_id@,
        ),
{
    if (forall|i: int| 0 <= i < 16 ==> #[trigger] trace_id@[i] == 0) || (forall|j: int|
        0 <= j < 8 ==> #[trigger] span_id@[j] == 0) {
        law_op_id_without_live_span_is_random(op_id@, trace_id@, span_id@);
    }
}

/// `OpId::from_span` does the same with the IDs under which the span is exported.
pub proof fn law_op_id_of_a_request_goes_by_its_span(span: &RequestSpan, op_id: OpId)
    requires
        call_ensures(OpId::from_span, (span,), op_id),
    ensures
        is_exported_as(span.span(), span.trace_id(), span.span_id()),
        (exists|i: int| 0 <= i < span.trace_id().len() && #[trigger] span.trace_id()[i] != 0) && (
        exists|j: int| 0 <= j < span.span_id().len() && #[trigger] span.span_id()[j] != 0)
            ==> op_id@ == span.trace_id(),
        (forall|i: int|
            0 <= i < span.trace_id().len() ==> #[trigger] span.trace_id()[i] == 0) || (forall|
            j: int,
        |
            0 <= j < span.span_id().len() ==> #[trigger] span.span_id()[j] == 0)
            ==> is_drawn_op_id(op_id@) && is_drawn(op_id@),
{
    if (forall|i: int| 0 <= i < span.trace_id().len() ==> #[trigger] span.trace_id()[i] == 0) || (
    forall|j: int| 0 <= j < span.span_id().len() ==> #[trigger] span.span_id()[j] == 0) {
        law_op_id_without_live_span_is_random(op_id@, span.trace_id(), span.span_id());
    }
}

/// `OpId::to_string` and `OpId::header_value` write the op ID that
/// `OpId::from_bytes` was given, as text and as bytes of the same codes.
pub proof fn law_op_id_is_written_as_it_is(
    bytes: [u8; 16],
    op_id: OpId,
    text: String,
    value: Vec<u8>,
    i: int,
)
    requires
        call_ensures(OpId::from_bytes, (bytes,), op_id),
        call_ensures(OpId::to_string, (&op_id,), text),
        call_ensures(OpId::header_value, (&op_id,), value),
        0 <= i < 36,
    ensures
        text@ == hyphenated(bytes@),
        text@.len() == 36,
        value@.len() == 36,
        value@[i] as int == text@[i] as int,
{
    lemma_hyphenated_is_visible(bytes@);
    assert('!' <= hyphenated(bytes@)[i] <= '~');
    law_ascii_keeps_codes(Seq::empty(), text@, i);
}

} // verus!
