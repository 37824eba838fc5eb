//! The span of a request, with what the subscriber and the propagator make of it.
use opentelemetry::global;
use opentelemetry::propagation::Injector;
use opentelemetry::trace::TraceContextExt;
use tracing::Span;
use tracing_opentelemetry::OpenTelemetrySpanExt;
use vstd::prelude::*;
use vstd::string::*;

verus! {

/// The span of the `tracing` crate.
#[verifier::external_type_specification]
#[verifier::external_body]
pub struct ExSpan(tracing::Span);

/// Pairs of strings as pairs of texts.
pub open spec fn pair_texts(pairs: Seq<(String, String)>) -> Seq<(Seq<char>, Seq<char>)> {
    Seq::new(pairs.len(), |i: int| (pairs[i].0@, pairs[i].1@))
}

/// Collects the headers that a trace context propagator asks for.
pub struct HeaderCollector(pub Vec<(String, String)>);

impl Injector for HeaderCollector {
    /// Collects a header.
    fn set(&mut self, key: &str, value: String)
        ensures
            pair_texts(final(self).0@) == pair_texts(old(self).0@).push((key@, value@)),
    {
        self.0.push((key.to_owned(), value));
        assert(pair_texts(self.0@) =~= pair_texts(old(self).0@).push((key@, value@)));
    }
}

/// `OpenTelemetrySpanExt::context`, and the IDs that it holds: the trace ID and
/// the span ID under which the subscriber exports the span.
///
/// Nothing is said of these IDs. They are up to the subscriber that is
/// installed, and are zero where it exports nothing.
#[verifier::external_body]
fn span_ids(span: &Span) -> (ids: ([u8; 16], [u8; 8])) {
    let context = span.context();
    let span_context = context.span().span_context().clone();
    (span_context.trace_id().to_bytes(), span_context.span_id().to_bytes())
}

/// `TextMapPropagator::inject_context`, by the propagator that
/// `global::get_text_map_propagator` gives: the headers that it sets for the
/// context of the span, in order.
///
/// Nothing is said of these headers. They are up to the propagator that is
/// installed; there is none that sets any unless export was started.
#[verifier::external_body]
fn propagated_headers(span: &Span) -> (headers: Vec<(String, String)>) {
    let context = span.context();
    let mut collector = HeaderCollector(Vec::new());
    global::get_text_map_propagator(
        |propagator| propagator.inject_context(&context, &mut collector),
    );
    collector.0
}

/// Whether the subscriber exports a span under these IDs: reading them off the
/// span came out with them.
pub closed spec fn is_exported_as(span: Span, trace_id: Seq<u8>, span_id: Seq<u8>) -> bool {
    exists|ids: ([u8; 16], [u8; 8])| #[trigger]
        call_ensures(span_ids, (&span,), ids) && ids.0@ == trace_id && ids.1@ == span_id
}

/// Whether the propagator sets these headers, and no others, for a span: asking
/// it came out with them.
pub closed spec fn is_propagated_for(span: Span, headers: Seq<(Seq<char>, Seq<char>)>) -> bool {
    exists|outcome: Vec<(String, String)>| #[trigger]
        call_ensures(propagated_headers, (&span,), outcome) && pair_texts(outcome@) == headers
}

/// The span of a request, with the IDs under which it is exported and the trace
/// context that is sent along with the response.
pub struct RequestSpan {
    span: Span,
    trace_id: [u8; 16],
    span_id: [u8; 8],
    propagated: Vec<(String, String)>,
}

impl RequestSpan {
    /// The trace ID under which the span is exported.
    pub closed spec fn trace_id(self) -> Seq<u8> {
        self.trace_id@
    }

    /// The span ID under which the span is exported.
    pub closed spec fn span_id(self) -> Seq<u8> {
        self.span_id@
    }

    /// The headers that carry the trace context of the span.
    pub closed spec fn propagated(self) -> Seq<(Seq<char>, Seq<char>)> {
        pair_texts(self.propagated@)
    }

    /// The span itself.
    pub closed spec fn span(self) -> Span {
        self.span
    }

    /// The IDs and the headers are those of the span.
    #[verifier::type_invariant]
    spec fn is_read_off_the_span(self) -> bool {
        &&& is_exported_as(self.span, self.trace_id@, self.span_id@)
        &&& is_propagated_for(self.span, pair_texts(self.propagated@))
    }

    /// Reads, once and for all, what the subscriber and the propagator make of a
    /// span.
    pub fn new(span: Span) -> (request_span: RequestSpan)
        ensures
            request_span.span() == span,
            request_span.trace_id().len() == 16,
            request_span.span_id().len() == 8,
            is_exported_as(span, request_span.trace_id(), request_span.span_id()),
            is_propagated_for(span, request_span.propagated()),
    {
        let (trace_id, span_id) = span_ids(&span);
        let propagated = propagated_headers(&span);
        RequestSpan { span, trace_id, span_id, propagated }
    }

    /// The span itself, to record fields on.
    pub fn as_span(&self) -> (span: &Span)
        ensures
            *span == self.span(),
    {
        &self.span
    }

    /// The IDs under which the span is exported.
    pub fn ids(&self) -> (ids: ([u8; 16], [u8; 8]))
        ensures
            ids.0@ == self.trace_id(),
            ids.1@ == self.span_id(),
            is_exported_as(self.span(), ids.0@, ids.1@),
    {
        proof {
            use_type_invariant(self);
        }
        (self.trace_id, self.span_id)
    }

    /// The headers that carry the trace context of the span.
    pub fn propagated_headers(&self) -> (headers: &Vec<(String, String)>)
        ensures
            pair_texts(headers@) == self.propagated(),
            is_propagated_for(self.span(), pair_texts(headers@)),
    {
        proof {
            use_type_invariant(self);
        }
        &self.propagated
    }
}

/// The IDs under which a span is exported are the outcome of reading its
/// context: IDs that were come by in another way will not do.
proof fn law_exported_ids_are_an_outcome(span: Span, trace_id: Seq<u8>, span_id: Seq<u8>)
    requires
        is_exported_as(span, trace_id, span_id),
    ensures
        exists|ids: ([u8; 16], [u8; 8])| #[trigger]
            call_ensures(span_ids, (&span,), ids) && ids.0@ == trace_id && ids.1@ == span_id,
        trace_id.len() == 16,
        span_id.len() == 8,
{
}

/// The headers that are propagated for a span are the outcome of asking the
/// propagator, from the first to the last, each as it was set.
proof fn law_propagated_headers_are_an_outcome(span: Span, headers: Seq<(Seq<char>, Seq<char>)>)
    requires
        is_propagated_for(span, headers),
    ensures
        exists|outcome: Vec<(String, String)>| #[trigger]
            call_ensures(propagated_headers, (&span,), outcome) && outcome@.len() == headers.len()
                && (forall|i: int|
                0 <= i < headers.len() ==> (#[trigger] headers[i]).0 == outcome@[i].0@
                    && headers[i].1 == outcome@[i].1@),
{
    let outcome = choose|outcome: Vec<(String, String)>| #[trigger]
        call_ensures(propagated_headers, (&span,), outcome) && pair_texts(outcome@) == headers;
    assert(call_ensures(propagated_headers, (&span,), outcome));
}

/// Pairs of strings are read as pairs of texts one by one and in order.
pub proof fn law_pairs_are_read_in_order(pairs: Seq<(String, String)>, i: int)
    requires
        0 <= i < pairs.len(),
    ensures
        pair_texts(pairs).len() == pairs.len(),
        pair_texts(pairs)[i].0 == pairs[i].0@,
        pair_texts(pairs)[i].1 == pairs[i].1@,
{
}

/// `RequestSpan::new` keeps the span and what reading it came out with, and the
/// other methods hand these out as they are.
pub proof fn law_request_span_is_read_off_its_span(span: Span, request_span: RequestSpan)
    requires
        call_ensures(RequestSpan::new, (span,), request_span),
    ensures
        request_span.span() == span,
        is_exported_as(span, request_span.trace_id(), request_span.span_id()),
        is_propagated_for(span, request_span.propagated()),
{
}

/// `RequestSpan::ids`, `RequestSpan::propagated_headers` and
/// `RequestSpan::as_span` give what belongs to the span.
pub proof fn law_request_span_gives_what_it_read(
    request_span: &RequestSpan,
    ids: ([u8; 16], [u8; 8]),
    headers: &Vec<(String, String)>,
    span: &Span,
)
    requires
        call_ensures(RequestSpan::ids, (request_span,), ids),
        call_ensures(RequestSpan::propagated_headers, (request_span,), headers),
        call_ensures(RequestSpan::as_span, (request_span,), span),
    ensures
        *span == request_span.span(),
        ids.0@ == request_span.trace_id() && ids.1@ == request_span.span_id(),
        is_exported_as(*span, ids.0@, ids.1@),
        pair_texts(headers@) == request_span.propagated(),
        is_propagated_for(*span, pair_texts(headers@)),
{
}

} // verus!
