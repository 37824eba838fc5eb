//! Correlating requests, responses, logs and traces.
use crate::api::{lemma_names_are_valid, CELLER_OP_ID, REQUEST_ID, USER_AGENT};
use crate::headers::{
    first_entry, first_value, has_room, header_contents, header_text, inject_header, is_set_refused,
    is_text, lemma_room_after_header, lower, read_header_text, same_name, set_header,
    valid_header_name, valid_header_value, with_header, with_injected_header, HeadersFull,
};
use crate::op_id::{
    is_drawn_op_id, is_live_context, is_op_id_for, law_op_id_without_live_span_is_random, OpId,
};
use crate::request_id::{
    adopted_request_id, is_drawn_request_id, is_request_id_for, is_safe_to_echo,
    law_visible_request_id_is_adopted, lemma_drawn_request_id, lemma_safe_text, RequestId,
};
use crate::request_span::{is_exported_as, is_propagated_for, pair_texts, RequestSpan};
use crate::text::{ascii_bytes, law_ascii_keeps_codes, lemma_bytes_of_text, lemma_text_of_bytes};
use crate::uuid_text::{
    hex_text, hyphenated, is_drawn, is_zero, law_drawn_bytes_are_a_random_uuid,
    law_hyphens_drop_to_hex, lemma_hyphenated_is_visible, without_hyphens,
};
use axum::http::{HeaderMap, StatusCode};
use vstd::prelude::*;
use vstd::string::*;
use vstd::utf8::*;

verus! {

/// What the span of a request says of the request from the start.
pub struct RequestFields {
    /// `otel.name`
    pub otel_name: String,
    /// `otel.kind`
    pub otel_kind: &'static str,
    /// `http.request.method`
    pub method: String,
    /// `url.path`
    pub path: String,
    /// `user_agent.original`
    pub user_agent: String,
}

/// Describes a request for its span: named by method and path, with the client
/// software where the request tells it as text.
pub fn request_fields(method: &str, path: &str, headers: &HeaderMap) -> (fields: RequestFields)
    ensures
        fields.otel_name@ == method@ + seq![' '] + path@,
        fields.otel_kind@ == "server"@,
        fields.method@ == method@,
        fields.path@ == path@,
        match header_text(header_contents(*headers), USER_AGENT@) {
            Some(text) => fields.user_agent@ == text,
            None => fields.user_agent@ == Seq::<char>::empty(),
        },
{
    proof {
        lemma_names_are_valid();
        reveal_strlit(" ");
    }
    let mut otel_name = method.to_owned();
    otel_name.append(" ");
    otel_name.append(path);
    assert(otel_name@ =~= method@ + seq![' '] + path@);
    let user_agent = match read_header_text(headers, USER_AGENT) {
        Some(text) => text,
        None => String::new(),
    };
    RequestFields {
        otel_name,
        otel_kind: "server",
        method: method.to_owned(),
        path: path.to_owned(),
        user_agent,
    }
}

/// The correlation identifiers attached to a request.
#[derive(Debug)]
pub struct Correlation {
    pub op_id: OpId,
    pub request_id: RequestId,
}

/// What the span of a request says of its correlation identifiers.
pub struct CorrelationFields {
    /// `request_id`
    pub request_id: String,
    /// `op_id`
    pub op_id: String,
}

impl Correlation {
    /// The identifiers in the form in which the span records them.
    pub fn fields(&self) -> (fields: CorrelationFields)
        ensures
            fields.request_id@ == self.request_id@.0,
            fields.op_id@ == hyphenated(self.op_id@),
    {
        CorrelationFields {
            request_id: self.request_id.to_string(),
            op_id: self.op_id.to_string(),
        }
    }
}

impl Clone for Correlation {
    fn clone(&self) -> (copy: Correlation)
        ensures
            copy.op_id == self.op_id,
            copy.request_id@ == self.request_id@,
    {
        Correlation { op_id: self.op_id, request_id: self.request_id.clone() }
    }
}

/// Whether a request may be given these identifiers, when its span is exported
/// under the given IDs and its headers are the given ones.
pub open spec fn is_correlation_for(
    correlation: Correlation,
    trace_id: Seq<u8>,
    span_id: Seq<u8>,
    contents: Map<Seq<char>, Seq<(Seq<u8>, bool)>>,
) -> bool {
    &&& is_op_id_for(correlation.op_id@, trace_id, span_id)
    &&& is_request_id_for(correlation.request_id@, contents)
}

/// Derives the correlation identifiers of a request whose span is exported
/// under the given IDs.
pub fn correlate_ids(trace_id: [u8; 16], span_id: [u8; 8], headers: &HeaderMap) -> (correlation:
    Correlation)
    ensures
        is_correlation_for(correlation, trace_id@, span_id@, header_contents(*headers)),
        correlation.op_id@.len() == 16,
        !is_zero(correlation.op_id@),
{
    let request_id = RequestId::for_headers(headers);
    let op_id = OpId::from_span_ids(trace_id, span_id);
    Correlation { op_id, request_id }
}

/// Derives the correlation identifiers of a request from its span and its
/// headers. An inbound trace context has no part in it.
pub fn correlate(span: &RequestSpan, headers: &HeaderMap) -> (correlation: Correlation)
    ensures
        is_correlation_for(
            correlation,
            span.trace_id(),
            span.span_id(),
            header_contents(*headers),
        ),
        is_exported_as(span.span(), span.trace_id(), span.span_id()),
        correlation.op_id@.len() == 16,
        !is_zero(correlation.op_id@),
{
    let (trace_id, span_id) = span.ids();
    correlate_ids(trace_id, span_id, headers)
}

/// The headers of a response after the correlation identifiers were written.
pub open spec fn with_correlation(
    contents: Map<Seq<char>, Seq<(Seq<u8>, bool)>>,
    op_id: Seq<u8>,
    request_id: (Seq<char>, bool),
) -> Map<Seq<char>, Seq<(Seq<u8>, bool)>> {
    with_header(
        with_header(contents, CELLER_OP_ID@, (ascii_bytes(hyphenated(op_id)), false)),
        REQUEST_ID@,
        (ascii_bytes(request_id.0), request_id.1),
    )
}

/// Whether a name is that of a correlation identifier.
pub open spec fn is_identifier_name(name: Seq<char>) -> bool {
    lower(name) == lower(CELLER_OP_ID@) || lower(name) == lower(REQUEST_ID@)
}

/// The headers of a response after a propagator asked for these headers to be
/// set, one after the other. The correlation identifiers are not its to set.
pub open spec fn with_trace_context(
    contents: Map<Seq<char>, Seq<(Seq<u8>, bool)>>,
    propagated: Seq<(Seq<char>, Seq<char>)>,
) -> Map<Seq<char>, Seq<(Seq<u8>, bool)>>
    decreases propagated.len(),
{
    if propagated.len() == 0 {
        contents
    } else {
        let before = with_trace_context(contents, propagated.drop_last());
        let (key, value) = propagated.last();
        if is_identifier_name(key) {
            before
        } else {
            with_injected_header(before, key, value)
        }
    }
}

/// The headers of a response after the identifiers and the trace context were
/// written.
pub open spec fn written_response(
    contents: Map<Seq<char>, Seq<(Seq<u8>, bool)>>,
    op_id: Seq<u8>,
    request_id: (Seq<char>, bool),
    propagated: Seq<(Seq<char>, Seq<char>)>,
) -> Map<Seq<char>, Seq<(Seq<u8>, bool)>> {
    with_trace_context(with_correlation(contents, op_id, request_id), propagated)
}

/// Whether a response carries a correlation's identifiers, each once.
pub open spec fn carries(
    response: Map<Seq<char>, Seq<(Seq<u8>, bool)>>,
    op_id: Seq<u8>,
    request_id: (Seq<char>, bool),
) -> bool {
    &&& response.contains_key(lower(CELLER_OP_ID@))
    &&& response[lower(CELLER_OP_ID@)] == seq![(ascii_bytes(hyphenated(op_id)), false)]
    &&& response.contains_key(lower(REQUEST_ID@))
    &&& response[lower(REQUEST_ID@)] == seq![(ascii_bytes(request_id.0), request_id.1)]
}

/// Whether the headers are those of a response that was written in part, up to a
/// header that the map refused.
pub open spec fn is_cut_short(
    written: Map<Seq<char>, Seq<(Seq<u8>, bool)>>,
    contents: Map<Seq<char>, Seq<(Seq<u8>, bool)>>,
    op_id: Seq<u8>,
    request_id: (Seq<char>, bool),
    propagated: Seq<(Seq<char>, Seq<char>)>,
) -> bool {
    let op = (ascii_bytes(hyphenated(op_id)), false);
    let id = (ascii_bytes(request_id.0), request_id.1);
    ||| written == contents && is_set_refused(written, CELLER_OP_ID@, op)
    ||| written == with_header(contents, CELLER_OP_ID@, op) && is_set_refused(
        written,
        REQUEST_ID@,
        id,
    )
    ||| exists|n: int|
        0 <= n < propagated.len() && written == #[trigger] written_response(
            contents,
            op_id,
            request_id,
            propagated.take(n),
        ) && is_set_refused(written, propagated[n].0, (encode_utf8(propagated[n].1), false))
}

/// Tells whether a name is that of a correlation identifier.
fn names_identifier(name: &str) -> (named: bool)
    ensures
        named == is_identifier_name(name@),
{
    proof {
        reveal_strlit("X-Celler-Op-Id");
        reveal_strlit("X-Request-Id");
    }
    same_name(name, CELLER_OP_ID) || same_name(name, REQUEST_ID)
}

/// Writes the correlation headers onto a response: the identifiers, then the
/// trace context that a propagator asked for.
///
/// Every response carries the identifiers of its request, so a propagator that
/// asks for other ones is passed over. Fails where the header map refuses to
/// grow; what was written before that stays.
pub fn write_headers_with(
    correlation: &Correlation,
    propagated: &Vec<(String, String)>,
    headers: &mut HeaderMap,
) -> (result: Result<(), HeadersFull>)
    ensures
        result is Ok ==> header_contents(*final(headers)) == written_response(
            header_contents(*old(headers)),
            correlation.op_id@,
            correlation.request_id@,
            pair_texts(propagated@),
        ),
        result is Ok ==> carries(
            header_contents(*final(headers)),
            correlation.op_id@,
            correlation.request_id@,
        ),
        result is Err ==> !has_room(header_contents(*old(headers)), 2int + propagated@.len()),
        result is Err ==> is_cut_short(
            header_contents(*final(headers)),
            header_contents(*old(headers)),
            correlation.op_id@,
            correlation.request_id@,
            pair_texts(propagated@),
        ),
{
    let ghost contents = header_contents(*headers);
    let ghost op = correlation.op_id@;
    let ghost id = correlation.request_id@;
    let ghost pairs = pair_texts(propagated@);
    proof {
        lemma_names_are_valid();
    }
    let op_id = correlation.op_id.header_value();
    if !set_header(headers, CELLER_OP_ID, op_id.as_slice(), false) {
        return Err(HeadersFull);
    }
    proof {
        if has_room(contents, 2int + pairs.len()) {
            lemma_room_after_header(contents, CELLER_OP_ID@, (op_id@, false), 2int + pairs.len());
        }
    }
    let request_id = correlation.request_id.header_value();
    let sensitive = correlation.request_id.is_sensitive();
    if !set_header(headers, REQUEST_ID, request_id.as_slice(), sensitive) {
        return Err(HeadersFull);
    }
    proof {
        if has_room(contents, 2int + pairs.len()) {
            lemma_room_after_header(
                with_header(contents, CELLER_OP_ID@, (op_id@, false)),
                REQUEST_ID@,
                (request_id@, sensitive),
                1int + pairs.len(),
            );
        }
        assert(pairs.take(0) =~= Seq::empty());
    }
    let mut i: usize = 0;
    while i < propagated.len()
        invariant
            i <= propagated.len(),
            pairs == pair_texts(propagated@),
            contents == header_contents(*old(headers)),
            op == correlation.op_id@,
            id == correlation.request_id@,
            header_contents(*headers) == written_response(contents, op, id, pairs.take(i as int)),
            has_room(contents, 2int + pairs.len()) ==> has_room(
                header_contents(*headers),
                pairs.len() - i,
            ),
        decreases propagated.len() - i,
    {
        let ghost before = header_contents(*headers);
        let key = propagated[i].0.as_str();
        let value = propagated[i].1.as_str();
        proof {
            assert(pairs.take(i + 1).drop_last() =~= pairs.take(i as int));
            assert(pairs.take(i + 1).last() == (key@, value@));
            if has_room(contents, 2int + pairs.len()) {
                lemma_room_after_header(before, key@, (encode_utf8(value@), false), pairs.len() - i);
            }
        }
        if !names_identifier(key) {
            if !inject_header(headers, key, value) {
                return Err(HeadersFull);
            }
        }
        i = i + 1;
    }
    proof {
        assert(pairs.take(pairs.len() as int) =~= pairs);
        lemma_response_carries(contents, op, id, pairs);
    }
    Ok(())
}

/// Writes the correlation headers onto a response: the identifiers, then the
/// trace context of the span.
///
/// Fails where the header map refuses to grow; what was written before that
/// stays.
pub fn write_headers(span: &RequestSpan, correlation: &Correlation, headers: &mut HeaderMap) -> (
    result: Result<(), HeadersFull>)
    ensures
        is_propagated_for(span.span(), span.propagated()),
        result is Ok ==> header_contents(*final(headers)) == written_response(
            header_contents(*old(headers)),
            correlation.op_id@,
            correlation.request_id@,
            span.propagated(),
        ),
        result is Ok ==> carries(
            header_contents(*final(headers)),
            correlation.op_id@,
            correlation.request_id@,
        ),
        result is Err ==> !has_room(header_contents(*old(headers)), 2int + span.propagated().len()),
        result is Err ==> is_cut_short(
            header_contents(*final(headers)),
            header_contents(*old(headers)),
            correlation.op_id@,
            correlation.request_id@,
            span.propagated(),
        ),
{
    write_headers_with(correlation, span.propagated_headers(), headers)
}

/// What the span of a request says of its response.
pub struct ResponseFields {
    /// `http.response.status_code`
    pub status_code: u16,
    /// `otel.status_code`
    pub otel_status_code: Option<&'static str>,
}

/// Whether a status code stands for a fault of the server.
pub open spec fn is_server_fault(status: u16) -> bool {
    500 <= status < 600
}

/// `StatusCode::is_server_error`: the status code is one of the 500s.
#[verifier::external_body]
fn status_is_server_error(status: u16) -> (fault: bool)
    requires
        100 <= status < 1000,
    ensures
        fault == is_server_fault(status),
{
    StatusCode::from_u16(status).unwrap().is_server_error()
}

/// Describes a response for the span of its request.
///
/// Only server-side faults mark the trace as failed; a 404 or a 401 is a
/// normal outcome of serving a request.
pub fn response_fields(status: u16) -> (fields: ResponseFields)
    requires
        100 <= status < 1000,
    ensures
        fields.status_code == status,
        match fields.otel_status_code {
            Some(code) => is_server_fault(status) && code@ == "ERROR"@,
            None => !is_server_fault(status),
        },
{
    let otel_status_code = if status_is_server_error(status) {
        Some("ERROR")
    } else {
        None
    };
    ResponseFields { status_code: status, otel_status_code }
}

/// Completes a response: writes the correlation headers onto it and describes
/// it for the span of its request.
///
/// Fails where the header map refuses to grow.
pub fn finish_response(
    span: &RequestSpan,
    correlation: &Correlation,
    status: u16,
    headers: &mut HeaderMap,
) -> (result: Result<ResponseFields, HeadersFull>)
    requires
        100 <= status < 1000,
    ensures
        is_propagated_for(span.span(), span.propagated()),
        match result {
            Ok(fields) => {
                &&& header_contents(*final(headers)) == written_response(
                    header_contents(*old(headers)),
                    correlation.op_id@,
                    correlation.request_id@,
                    span.propagated(),
                )
                &&& carries(
                    header_contents(*final(headers)),
                    correlation.op_id@,
                    correlation.request_id@,
                )
                &&& fields.status_code == status
                &&& match fields.otel_status_code {
                    Some(code) => is_server_fault(status) && code@ == "ERROR"@,
                    None => !is_server_fault(status),
                }
            },
            Err(_) => {
                &&& !has_room(header_contents(*old(headers)), 2int + span.propagated().len())
                &&& is_cut_short(
                    header_contents(*final(headers)),
                    header_contents(*old(headers)),
                    correlation.op_id@,
                    correlation.request_id@,
                    span.propagated(),
                )
            },
        },
{
    let fields = response_fields(status);
    match write_headers(span, correlation, headers) {
        Ok(()) => Ok(fields),
        Err(error) => Err(error),
    }
}

/// The two correlation headers have different names.
proof fn lemma_correlation_names_differ()
    ensures
        lower(CELLER_OP_ID@) != lower(REQUEST_ID@),
{
    reveal_strlit("X-Celler-Op-Id");
    reveal_strlit("X-Request-Id");
    assert(lower(CELLER_OP_ID@).len() != lower(REQUEST_ID@).len());
}

/// A propagator leaves alone every header that it does not ask for in a
/// well-formed way, and the correlation identifiers in any case.
proof fn lemma_trace_context_keeps(
    contents: Map<Seq<char>, Seq<(Seq<u8>, bool)>>,
    propagated: Seq<(Seq<char>, Seq<char>)>,
    name: Seq<char>,
)
    requires
        forall|i: int|
            0 <= i < propagated.len() ==> lower((#[trigger] propagated[i]).0) != name
                || is_identifier_name(propagated[i].0) || !valid_header_name(propagated[i].0)
                || !valid_header_value(encode_utf8(propagated[i].1)),
    ensures
        with_trace_context(contents, propagated).contains_key(name) == contents.contains_key(name),
        with_trace_context(contents, propagated)[name] == contents[name],
    decreases propagated.len(),
{
    if propagated.len() > 0 {
        lemma_trace_context_keeps(contents, propagated.drop_last(), name);
        assert(propagated.last() == propagated[propagated.len() - 1]);
    }
}

/// Every response carries the identifiers, whatever the propagator asks for.
proof fn lemma_response_carries(
    contents: Map<Seq<char>, Seq<(Seq<u8>, bool)>>,
    op_id: Seq<u8>,
    request_id: (Seq<char>, bool),
    propagated: Seq<(Seq<char>, Seq<char>)>,
)
    ensures
        carries(written_response(contents, op_id, request_id, propagated), op_id, request_id),
{
    lemma_correlation_names_differ();
    let correlated = with_correlation(contents, op_id, request_id);
    lemma_trace_context_keeps(correlated, propagated, lower(CELLER_OP_ID@));
    lemma_trace_context_keeps(correlated, propagated, lower(REQUEST_ID@));
}

/// Every response carries the two correlation identifiers, each once, whatever
/// the handler had put there and whatever the propagator asks for. Headers that
/// the propagator does not ask for stay as they are.
pub proof fn law_response_carries_identifiers(
    contents: Map<Seq<char>, Seq<(Seq<u8>, bool)>>,
    op_id: Seq<u8>,
    request_id: (Seq<char>, bool),
    propagated: Seq<(Seq<char>, Seq<char>)>,
    name: Seq<char>,
)
    ensures
        ({
            let response = written_response(contents, op_id, request_id, propagated);
            &&& carries(response, op_id, request_id)
            &&& name != lower(CELLER_OP_ID@) && name != lower(REQUEST_ID@) && (forall|i: int|
                0 <= i < propagated.len() ==> lower((#[trigger] propagated[i]).0) != name) ==> {
                &&& response.contains_key(name) == contents.contains_key(name)
                &&& response[name] == contents[name]
            }
        }),
{
    lemma_response_carries(contents, op_id, request_id, propagated);
    if forall|i: int| 0 <= i < propagated.len() ==> lower((#[trigger] propagated[i]).0) != name {
        lemma_trace_context_keeps(
            with_correlation(contents, op_id, request_id),
            propagated,
            name,
        );
    }
}

/// The headers that a propagator sets do not depend on those that are there.
proof fn lemma_trace_context_is_overlay(
    contents: Map<Seq<char>, Seq<(Seq<u8>, bool)>>,
    propagated: Seq<(Seq<char>, Seq<char>)>,
)
    ensures
        with_trace_context(contents, propagated) == contents.union_prefer_right(
            with_trace_context(Map::empty(), propagated),
        ),
    decreases propagated.len(),
{
    let overlay = with_trace_context(Map::empty(), propagated);
    if propagated.len() > 0 {
        lemma_trace_context_is_overlay(contents, propagated.drop_last());
    }
    assert(with_trace_context(contents, propagated) =~= contents.union_prefer_right(overlay));
}

/// Writing the correlation headers a second time changes nothing.
pub proof fn law_writing_headers_is_idempotent(
    contents: Map<Seq<char>, Seq<(Seq<u8>, bool)>>,
    op_id: Seq<u8>,
    request_id: (Seq<char>, bool),
    propagated: Seq<(Seq<char>, Seq<char>)>,
)
    ensures
        written_response(
            written_response(contents, op_id, request_id, propagated),
            op_id,
            request_id,
            propagated,
        ) == written_response(contents, op_id, request_id, propagated),
{
    let once = written_response(contents, op_id, request_id, propagated);
    let empty = Map::<Seq<char>, Seq<(Seq<u8>, bool)>>::empty();
    lemma_correlation_names_differ();
    lemma_trace_context_is_overlay(with_correlation(contents, op_id, request_id), propagated);
    lemma_trace_context_is_overlay(with_correlation(once, op_id, request_id), propagated);
    lemma_trace_context_keeps(empty, propagated, lower(CELLER_OP_ID@));
    lemma_trace_context_keeps(empty, propagated, lower(REQUEST_ID@));
    assert(written_response(once, op_id, request_id, propagated) =~= once);
}

/// An inbound request ID that is safe to echo comes back in the response, byte
/// for byte and with its mark.
pub proof fn law_request_id_is_echoed(
    correlation: Correlation,
    request: Map<Seq<char>, Seq<(Seq<u8>, bool)>>,
    response: Map<Seq<char>, Seq<(Seq<u8>, bool)>>,
    propagated: Seq<(Seq<char>, Seq<char>)>,
)
    requires
        adopted_request_id(request) is Some,
        is_request_id_for(correlation.request_id@, request),
    ensures
        first_entry(
            written_response(
                response,
                correlation.op_id@,
                correlation.request_id@,
                propagated,
            ),
            REQUEST_ID@,
        ) == first_entry(request, REQUEST_ID@),
{
    let value = first_value(request, REQUEST_ID@)->0;
    lemma_text_of_bytes(value);
    lemma_response_carries(response, correlation.op_id@, correlation.request_id@, propagated);
}

/// A request ID that left with a response is adopted when it comes in again.
pub proof fn law_returned_request_id_is_adopted(
    response: Map<Seq<char>, Seq<(Seq<u8>, bool)>>,
    op_id: Seq<u8>,
    request_id: (Seq<char>, bool),
    propagated: Seq<(Seq<char>, Seq<char>)>,
)
    requires
        is_safe_to_echo(request_id.0),
    ensures
        adopted_request_id(written_response(response, op_id, request_id, propagated)) == Some(
            request_id,
        ),
{
    lemma_safe_text(request_id.0);
    lemma_response_carries(response, op_id, request_id, propagated);
}

/// Every request is given a request ID that is safe to echo, adopted or not.
pub proof fn law_request_id_is_safe(
    request_id: (Seq<char>, bool),
    request: Map<Seq<char>, Seq<(Seq<u8>, bool)>>,
)
    requires
        is_request_id_for(request_id, request),
    ensures
        is_safe_to_echo(request_id.0),
{
    if adopted_request_id(request) is None {
        let bytes = choose|bytes: Seq<u8>|
            is_drawn_request_id(bytes) && request_id == (#[trigger] hyphenated(bytes), false);
        lemma_drawn_request_id(bytes);
        law_drawn_bytes_are_a_random_uuid(bytes);
        lemma_hyphenated_is_visible(bytes);
    }
}

/// The identifiers that a client reads off a response are, to the letter, those
/// that the span of the request records.
pub proof fn law_response_reads_as_recorded(
    response: Map<Seq<char>, Seq<(Seq<u8>, bool)>>,
    op_id: OpId,
    request_id: (Seq<char>, bool),
    propagated: Seq<(Seq<char>, Seq<char>)>,
)
    requires
        is_safe_to_echo(request_id.0),
    ensures
        ({
            let written = written_response(response, op_id@, request_id, propagated);
            &&& header_text(written, CELLER_OP_ID@) == Some(hyphenated(op_id@))
            &&& header_text(written, REQUEST_ID@) == Some(request_id.0)
        }),
{
    let text = hyphenated(op_id@);
    op_id.lemma_len();
    lemma_response_carries(response, op_id@, request_id, propagated);
    lemma_hyphenated_is_visible(op_id@);
    lemma_bytes_of_text(text);
    assert(is_text(ascii_bytes(text)));
    lemma_safe_text(request_id.0);
}

/// Under a live span the op ID of a response, without its hyphens, is the
/// trace ID in hexadecimal: it can be looked up as it is.
pub proof fn law_op_id_resolves_to_trace(
    correlation: Correlation,
    trace_id: Seq<u8>,
    span_id: Seq<u8>,
    request: Map<Seq<char>, Seq<(Seq<u8>, bool)>>,
    response: Map<Seq<char>, Seq<(Seq<u8>, bool)>>,
    propagated: Seq<(Seq<char>, Seq<char>)>,
)
    requires
        is_live_context(trace_id, span_id),
        is_correlation_for(correlation, trace_id, span_id, request),
    ensures
        ({
            let written = written_response(
                response,
                correlation.op_id@,
                correlation.request_id@,
                propagated,
            );
            &&& header_text(written, CELLER_OP_ID@) is Some
            &&& without_hyphens(header_text(written, CELLER_OP_ID@)->0) == hex_text(trace_id)
        }),
{
    correlation.op_id.lemma_len();
    law_request_id_is_safe(correlation.request_id@, request);
    law_response_reads_as_recorded(
        response,
        correlation.op_id,
        correlation.request_id@,
        propagated,
    );
    law_hyphens_drop_to_hex(trace_id);
}

/// The value of `traceparent` in the W3C trace context format.
pub open spec fn traceparent_text(trace_id: Seq<u8>, span_id: Seq<u8>, flags: u8) -> Seq<char> {
    "00-"@ + hex_text(trace_id) + seq!['-'] + hex_text(span_id) + seq!['-'] + hex_text(seq![flags])
}

/// What a propagator of the W3C trace context format asks for under a live
/// span.
pub open spec fn w3c_trace_context(
    trace_id: Seq<u8>,
    span_id: Seq<u8>,
    flags: u8,
    state: Seq<char>,
) -> Seq<(Seq<char>, Seq<char>)> {
    seq![("traceparent"@, traceparent_text(trace_id, span_id, flags)), ("tracestate"@, state)]
}

/// Where the W3C trace context is propagated, the response carries it once, and
/// its trace ID is the op ID of the response without the hyphens.
pub proof fn law_traceparent_agrees_with_op_id(
    correlation: Correlation,
    trace_id: Seq<u8>,
    span_id: Seq<u8>,
    flags: u8,
    state: Seq<char>,
    request: Map<Seq<char>, Seq<(Seq<u8>, bool)>>,
    response: Map<Seq<char>, Seq<(Seq<u8>, bool)>>,
)
    requires
        is_live_context(trace_id, span_id),
        is_correlation_for(correlation, trace_id, span_id, request),
    ensures
        ({
            let written = written_response(
                response,
                correlation.op_id@,
                correlation.request_id@,
                w3c_trace_context(trace_id, span_id, flags, state),
            );
            let text = traceparent_text(trace_id, span_id, flags);
            &&& written.contains_key(lower("traceparent"@))
            &&& written[lower("traceparent"@)] == seq![(ascii_bytes(text), false)]
            &&& header_text(written, CELLER_OP_ID@) is Some
            &&& text.subrange(3, 35) == without_hyphens(header_text(written, CELLER_OP_ID@)->0)
        }),
{
    let context = w3c_trace_context(trace_id, span_id, flags, state);
    let text = traceparent_text(trace_id, span_id, flags);
    let correlated = with_correlation(response, correlation.op_id@, correlation.request_id@);
    correlation.op_id.lemma_len();
    law_op_id_resolves_to_trace(correlation, trace_id, span_id, request, response, context);
    reveal_strlit("00-");
    reveal_strlit("traceparent");
    reveal_strlit("tracestate");
    reveal_strlit("X-Celler-Op-Id");
    reveal_strlit("X-Request-Id");
    assert(lower("traceparent"@).len() == 11 && lower("tracestate"@).len() == 10);
    assert(lower(CELLER_OP_ID@).len() == 14 && lower(REQUEST_ID@).len() == 12);
    assert(valid_header_name("traceparent"@));
    assert(forall|i: int| 0 <= i < text.len() ==> '!' <= #[trigger] text[i] <= '~');
    lemma_bytes_of_text(text);
    assert(valid_header_value(ascii_bytes(text)));
    assert(text.subrange(3, 35) =~= hex_text(trace_id));
    reveal_with_fuel(with_trace_context, 3);
    let first = context.drop_last();
    assert(first =~= seq![("traceparent"@, text)]);
    assert(first.drop_last() =~= Seq::empty());
    assert(with_trace_context(correlated, first) == with_header(
        correlated,
        "traceparent"@,
        (ascii_bytes(text), false),
    ));
}

/// Of the headers of a request only `X-Request-Id` has a part in its
/// identifiers.
pub proof fn law_only_the_request_id_header_counts(
    correlation: Correlation,
    trace_id: Seq<u8>,
    span_id: Seq<u8>,
    request: Map<Seq<char>, Seq<(Seq<u8>, bool)>>,
    other: Map<Seq<char>, Seq<(Seq<u8>, bool)>>,
)
    requires
        first_entry(request, REQUEST_ID@) == first_entry(other, REQUEST_ID@),
    ensures
        is_correlation_for(correlation, trace_id, span_id, request) == is_correlation_for(
            correlation,
            trace_id,
            span_id,
            other,
        ),
{
}

/// An inbound trace context is never adopted: a request is given the same
/// identifiers whether or not it carries a `traceparent`, and whatever that
/// holds.
pub proof fn law_inbound_trace_context_is_not_adopted(
    correlation: Correlation,
    trace_id: Seq<u8>,
    span_id: Seq<u8>,
    request: Map<Seq<char>, Seq<(Seq<u8>, bool)>>,
    traceparent: Seq<(Seq<u8>, bool)>,
)
    ensures
        is_correlation_for(correlation, trace_id, span_id, request) == is_correlation_for(
            correlation,
            trace_id,
            span_id,
            request.insert("traceparent"@, traceparent),
        ),
        is_correlation_for(correlation, trace_id, span_id, request) == is_correlation_for(
            correlation,
            trace_id,
            span_id,
            request.remove("traceparent"@),
        ),
{
    reveal_strlit("traceparent");
    reveal_strlit("X-Request-Id");
    assert("traceparent"@.len() != lower(REQUEST_ID@).len());
}

/// The names under which header maps keep the correlation identifiers.
proof fn lemma_identifier_names()
    ensures
        lower(CELLER_OP_ID@) == "x-celler-op-id"@,
        lower(REQUEST_ID@) == "x-request-id"@,
{
    reveal_strlit("X-Celler-Op-Id");
    reveal_strlit("X-Request-Id");
    reveal_strlit("x-celler-op-id");
    reveal_strlit("x-request-id");
    assert(lower(CELLER_OP_ID@) =~= "x-celler-op-id"@);
    assert(lower(REQUEST_ID@) =~= "x-request-id"@);
}

/// Two names are not a propagator's to set, and no others.
pub proof fn law_only_the_identifiers_are_kept_from_the_propagator(name: Seq<char>)
    ensures
        is_identifier_name(name) <==> lower(name) == "x-celler-op-id"@ || lower(name)
            == "x-request-id"@,
{
    lemma_identifier_names();
}

/// The response holds one `X-Celler-Op-Id`, which is the op ID in hyphenated form,
/// and one `X-Request-Id`, which is the request ID: letter for letter, whatever
/// the handler had put there and whatever the propagator asks for.
pub proof fn law_response_names_its_request(
    contents: Map<Seq<char>, Seq<(Seq<u8>, bool)>>,
    op_id: Seq<u8>,
    request_id: (Seq<char>, bool),
    propagated: Seq<(Seq<char>, Seq<char>)>,
)
    requires
        op_id.len() == 16,
        forall|i: int|
            0 <= i < request_id.0.len() ==> 0x21 <= #[trigger] request_id.0[i] as int <= 0x7e,
    ensures
        ({
            let response = written_response(contents, op_id, request_id, propagated);
            let op = response["x-celler-op-id"@];
            let id = response["x-request-id"@];
            &&& response.contains_key("x-celler-op-id"@)
            &&& op.len() == 1
            &&& !op[0].1
            &&& op[0].0.len() == 36
            &&& forall|i: int|
                0 <= i < 36 ==> #[trigger] op[0].0[i] as int == hyphenated(op_id)[i] as int
            &&& response.contains_key("x-request-id"@)
            &&& id.len() == 1
            &&& id[0].1 == request_id.1
            &&& id[0].0.len() == request_id.0.len()
            &&& forall|i: int|
                0 <= i < request_id.0.len() ==> #[trigger] id[0].0[i] as int
                    == request_id.0[i] as int
        }),
{
    lemma_identifier_names();
    lemma_response_carries(contents, op_id, request_id, propagated);
    lemma_hyphenated_is_visible(op_id);
    let response = written_response(contents, op_id, request_id, propagated);
    let op = response["x-celler-op-id"@];
    let id = response["x-request-id"@];
    assert forall|i: int| 0 <= i < 36 implies #[trigger] op[0].0[i] as int == hyphenated(
        op_id,
    )[i] as int by {
        assert('!' <= hyphenated(op_id)[i] <= '~');
        law_ascii_keeps_codes(Seq::empty(), hyphenated(op_id), i);
    }
    assert forall|i: int| 0 <= i < request_id.0.len() implies #[trigger] id[0].0[i] as int
        == request_id.0[i] as int by {
        law_ascii_keeps_codes(Seq::empty(), request_id.0, i);
    }
}

/// A first `X-Request-Id` of 1 to 128 bytes of visible ASCII is what the response
/// holds under that name, and all that it holds there.
pub proof fn law_visible_request_id_is_echoed(
    request_id: (Seq<char>, bool),
    op_id: Seq<u8>,
    request: Map<Seq<char>, Seq<(Seq<u8>, bool)>>,
    response: Map<Seq<char>, Seq<(Seq<u8>, bool)>>,
    propagated: Seq<(Seq<char>, Seq<char>)>,
)
    requires
        request.contains_key("x-request-id"@),
        1 <= request["x-request-id"@][0].0.len() <= 128,
        forall|i: int|
            0 <= i < request["x-request-id"@][0].0.len() ==> 0x21
                <= #[trigger] request["x-request-id"@][0].0[i] <= 0x7e,
        is_request_id_for(request_id, request),
    ensures
        ({
            let written = written_response(response, op_id, request_id, propagated);
            &&& written.contains_key("x-request-id"@)
            &&& written["x-request-id"@] == seq![request["x-request-id"@][0]]
        }),
{
    lemma_identifier_names();
    lemma_response_carries(response, op_id, request_id, propagated);
    law_visible_request_id_is_adopted(request, request_id);
    let (value, sensitive) = request["x-request-id"@][0];
    assert forall|i: int| 0 <= i < value.len() implies ascii_bytes(request_id.0)[i] == value[i] by {
        assert(0x21 <= request["x-request-id"@][0].0[i] <= 0x7e);
        assert(request_id.0[i] as int == value[i] as int);
        law_ascii_keeps_codes(Seq::empty(), request_id.0, i);
    }
    assert(ascii_bytes(request_id.0) =~= value);
}

/// The last well-formed header that a propagator asks for under a name is what the
/// response holds under it: once, with the bytes of its text.
pub proof fn law_propagated_header_is_written(
    contents: Map<Seq<char>, Seq<(Seq<u8>, bool)>>,
    op_id: Seq<u8>,
    request_id: (Seq<char>, bool),
    propagated: Seq<(Seq<char>, Seq<char>)>,
    k: int,
)
    requires
        0 <= k < propagated.len(),
        lower(propagated[k].0) != "x-celler-op-id"@,
        lower(propagated[k].0) != "x-request-id"@,
        valid_header_name(propagated[k].0),
        valid_header_value(encode_utf8(propagated[k].1)),
        forall|j: int|
            k < j < propagated.len() ==> lower((#[trigger] propagated[j]).0) != lower(
                propagated[k].0,
            ) || !valid_header_name(propagated[j].0) || !valid_header_value(
                encode_utf8(propagated[j].1),
            ),
    ensures
        ({
            let response = written_response(contents, op_id, request_id, propagated);
            let name = lower(propagated[k].0);
            &&& response.contains_key(name)
            &&& response[name].len() == 1
            &&& response[name][0] == (encode_utf8(propagated[k].1), false)
        }),
{
    lemma_identifier_names();
    lemma_propagated_header(with_correlation(contents, op_id, request_id), propagated, k);
}

/// The last well-formed header under a name is what a propagator sets.
proof fn lemma_propagated_header(
    contents: Map<Seq<char>, Seq<(Seq<u8>, bool)>>,
    propagated: Seq<(Seq<char>, Seq<char>)>,
    k: int,
)
    requires
        0 <= k < propagated.len(),
        !is_identifier_name(propagated[k].0),
        valid_header_name(propagated[k].0),
        valid_header_value(encode_utf8(propagated[k].1)),
        forall|j: int|
            k < j < propagated.len() ==> lower((#[trigger] propagated[j]).0) != lower(
                propagated[k].0,
            ) || !valid_header_name(propagated[j].0) || !valid_header_value(
                encode_utf8(propagated[j].1),
            ),
    ensures
        ({
            let written = with_trace_context(contents, propagated);
            let name = lower(propagated[k].0);
            &&& written.contains_key(name)
            &&& written[name] == seq![(encode_utf8(propagated[k].1), false)]
        }),
    decreases propagated.len(),
{
    let last = propagated.len() - 1;
    assert(propagated.last() == propagated[last]);
    if k < last {
        lemma_propagated_header(contents, propagated.drop_last(), k);
    }
}

/// A header that a propagator does not ask for in a well-formed way is what it was
/// before, unless it is one of the identifiers.
pub proof fn law_other_headers_stay(
    contents: Map<Seq<char>, Seq<(Seq<u8>, bool)>>,
    op_id: Seq<u8>,
    request_id: (Seq<char>, bool),
    propagated: Seq<(Seq<char>, Seq<char>)>,
    name: Seq<char>,
)
    requires
        name != "x-celler-op-id"@,
        name != "x-request-id"@,
        forall|i: int|
            0 <= i < propagated.len() ==> lower((#[trigger] propagated[i]).0) != name
                || !valid_header_name(propagated[i].0) || !valid_header_value(
                encode_utf8(propagated[i].1),
            ),
    ensures
        ({
            let response = written_response(contents, op_id, request_id, propagated);
            &&& response.contains_key(name) == contents.contains_key(name)
            &&& response[name] == contents[name]
        }),
{
    lemma_identifier_names();
    lemma_trace_context_keeps(with_correlation(contents, op_id, request_id), propagated, name);
}

/// A response that was written in part holds under each name what it held before
/// or what some part of the writing puts there, and nothing is lost: names that
/// are neither an identifier nor asked for are as before, and each identifier is
/// as before or as in a whole response. The map refused a header that belongs
/// there.
pub proof fn law_cut_short_response_is_partly_written(
    written: Map<Seq<char>, Seq<(Seq<u8>, bool)>>,
    contents: Map<Seq<char>, Seq<(Seq<u8>, bool)>>,
    op_id: Seq<u8>,
    request_id: (Seq<char>, bool),
    propagated: Seq<(Seq<char>, Seq<char>)>,
    name: Seq<char>,
)
    requires
        is_cut_short(written, contents, op_id, request_id, propagated),
    ensures
        contents.contains_key(name) ==> written.contains_key(name),
        name != "x-celler-op-id"@ && name != "x-request-id"@ && (forall|i: int|
            0 <= i < propagated.len() ==> lower((#[trigger] propagated[i]).0) != name) ==> {
            &&& written.contains_key(name) == contents.contains_key(name)
            &&& written[name] == contents[name]
        },
        is_set_refused(written, CELLER_OP_ID@, (ascii_bytes(hyphenated(op_id)), false))
            || is_set_refused(written, REQUEST_ID@, (ascii_bytes(request_id.0), request_id.1))
            || exists|n: int|
            0 <= n < propagated.len() && is_set_refused(
                written,
                (#[trigger] propagated[n]).0,
                (encode_utf8(propagated[n].1), false),
            ),
        name == "x-celler-op-id"@ || name == "x-request-id"@ ==> {
            let whole = written_response(contents, op_id, request_id, propagated);
            ||| written.contains_key(name) == contents.contains_key(name) && written[name]
                == contents[name]
            ||| written.contains_key(name) && written[name] == whole[name]
        },
{
    lemma_identifier_names();
    lemma_correlation_names_differ();
    lemma_response_carries(contents, op_id, request_id, propagated);
    if written != contents && written != with_header(
        contents,
        CELLER_OP_ID@,
        (ascii_bytes(hyphenated(op_id)), false),
    ) {
        let n = choose|n: int|
            0 <= n < propagated.len() && written == #[trigger] written_response(
                contents,
                op_id,
                request_id,
                propagated.take(n),
            ) && is_set_refused(written, propagated[n].0, (encode_utf8(propagated[n].1), false));
        let part = propagated.take(n);
        let correlated = with_correlation(contents, op_id, request_id);
        lemma_response_carries(contents, op_id, request_id, part);
        lemma_trace_context_is_overlay(correlated, part);
        if name != "x-celler-op-id"@ && name != "x-request-id"@ && (forall|i: int|
            0 <= i < propagated.len() ==> lower((#[trigger] propagated[i]).0) != name) {
            assert forall|i: int| 0 <= i < part.len() implies lower((#[trigger] part[i]).0)
                != name by {
                assert(part[i] == propagated[i]);
            }
            lemma_trace_context_keeps(correlated, part, name);
        }
    }
}

/// The server is at fault when the first of the three digits of the status is a
/// five, and not otherwise.
pub proof fn law_server_faults_begin_with_five(status: u16)
    ensures
        is_server_fault(status) <==> status / 100 == 5,
{
}

/// The identifiers of a request are what its span and its headers call for, each
/// on its own: the op ID does not depend on the headers, nor the request ID on the
/// span.
pub proof fn law_identifiers_are_independent(
    correlation: Correlation,
    trace_id: Seq<u8>,
    span_id: Seq<u8>,
    contents: Map<Seq<char>, Seq<(Seq<u8>, bool)>>,
)
    ensures
        is_correlation_for(correlation, trace_id, span_id, contents) <==> is_op_id_for(
            correlation.op_id@,
            trace_id,
            span_id,
        ) && is_request_id_for(correlation.request_id@, contents),
{
}

/// `request_fields` names a span after method and path and tells the client
/// software where the first `User-Agent` can be read as text.
pub proof fn law_request_is_described(
    method: &str,
    path: &str,
    headers: &HeaderMap,
    fields: RequestFields,
)
    requires
        call_ensures(request_fields, (method, path, headers), fields),
    ensures
        ({
            let n = method@.len() as int;
            let agent = header_text(header_contents(*headers), "user-agent"@);
            &&& fields.otel_name@.len() == n + 1 + path@.len()
            &&& fields.otel_name@.take(n) == method@
            &&& fields.otel_name@[n] == ' '
            &&& fields.otel_name@.skip(n + 1) == path@
            &&& fields.otel_kind@ == "server"@
            &&& fields.method@ == method@
            &&& fields.path@ == path@
            &&& agent is Some ==> fields.user_agent@ == agent->0
            &&& agent is None ==> fields.user_agent@.len() == 0
        }),
{
    let n = method@.len() as int;
    assert(fields.otel_name@.take(n) =~= method@);
    assert(fields.otel_name@.skip(n + 1) =~= path@);
}

/// `response_fields` tells the status, and marks the trace as failed where its
/// first digit is a five and nowhere else.
pub proof fn law_response_is_described(status: u16, fields: ResponseFields)
    requires
        call_ensures(response_fields, (status,), fields),
    ensures
        fields.status_code == status,
        fields.otel_status_code is Some <==> status / 100 == 5,
        fields.otel_status_code is Some ==> fields.otel_status_code->0@ == "ERROR"@,
{
}

/// `correlate_ids` and `correlate` give a request the op ID that its span calls for
/// and the request ID that its headers call for. Under a live span the op ID is the
/// trace ID; otherwise it is drawn at random for this request.
pub proof fn law_request_is_correlated(
    trace_id: [u8; 16],
    span_id: [u8; 8],
    headers: &HeaderMap,
    correlation: Correlation,
)
    requires
        call_ensures(correlate_ids, (trace_id, span_id, headers), correlation),
    ensures
        (exists|i: int| 0 <= i < 16 && #[trigger] trace_id@[i] != 0) && (exists|j: int|
            0 <= j < 8 && #[trigger] span_id@[j] != 0) ==> correlation.op_id@ == trace_id@,
        (forall|i: int| 0 <= i < 16 ==> #[trigger] trace_id@[i] == 0) || (forall|j: int|
            0 <= j < 8 ==> #[trigger] span_id@[j] == 0) ==> is_drawn_op_id(correlation.op_id@)
            && is_drawn(correlation.op_id@),
        is_request_id_for(correlation.request_id@, header_contents(*headers)),
{
    if (forall|i: int| 0 <= i < 16 ==> #[trigger] trace_id@[i] == 0) || (forall|j: int|
        0 <= j < 8 ==> #[trigger] span_id@[j] == 0) {
        law_op_id_without_live_span_is_random(correlation.op_id@, trace_id@, span_id@);
    }
}

/// `correlate` does the same with the IDs under which the span is exported.
pub proof fn law_request_is_correlated_by_its_span(
    span: &RequestSpan,
    headers: &HeaderMap,
    correlation: Correlation,
)
    requires
        call_ensures(correlate, (span, headers), correlation),
    ensures
        is_exported_as(span.span(), span.trace_id(), span.span_id()),
        (exists|i: int| 0 <= i < span.trace_id().len() && #[trigger] span.trace_id()[i] != 0) && (
        exists|j: int| 0 <= j < span.span_id().len() && #[trigger] span.span_id()[j] != 0)
            ==> correlation.op_id@ == span.trace_id(),
        (forall|i: int|
            0 <= i < span.trace_id().len() ==> #[trigger] span.trace_id()[i] == 0) || (forall|
            j: int,
        |
            0 <= j < span.span_id().len() ==> #[trigger] span.span_id()[j] == 0)
            ==> is_drawn_op_id(correlation.op_id@) && is_drawn(correlation.op_id@),
        is_request_id_for(correlation.request_id@, header_contents(*headers)),
{
    if (forall|i: int| 0 <= i < span.trace_id().len() ==> #[trigger] span.trace_id()[i] == 0) || (
    forall|j: int| 0 <= j < span.span_id().len() ==> #[trigger] span.span_id()[j] == 0) {
        law_op_id_without_live_span_is_random(
            correlation.op_id@,
            span.trace_id(),
            span.span_id(),
        );
    }
}

/// `Correlation::fields` records both identifiers to the letter, and a clone has
/// the same ones.
pub proof fn law_identifiers_are_recorded(
    correlation: &Correlation,
    fields: CorrelationFields,
    copy: Correlation,
)
    requires
        call_ensures(Correlation::fields, (correlation,), fields),
        call_ensures(Correlation::clone, (correlation,), copy),
    ensures
        fields.request_id@ == correlation.request_id@.0,
        fields.op_id@ == hyphenated(correlation.op_id@),
        copy.op_id@ == correlation.op_id@,
        copy.request_id@ == correlation.request_id@,
{
}

/// `write_headers_with` writes the whole response or stops at a header that the
/// map refuses; with room it writes the whole.
pub proof fn law_response_is_written(
    correlation: &Correlation,
    propagated: &Vec<(String, String)>,
    headers: &mut HeaderMap,
    result: Result<(), HeadersFull>,
)
    requires
        call_ensures(write_headers_with, (correlation, propagated, headers), result),
    ensures
        result is Ok ==> header_contents(*final(headers)) == written_response(
            header_contents(*old(headers)),
            correlation.op_id@,
            correlation.request_id@,
            pair_texts(propagated@),
        ),
        result is Err ==> is_cut_short(
            header_contents(*final(headers)),
            header_contents(*old(headers)),
            correlation.op_id@,
            correlation.request_id@,
            pair_texts(propagated@),
        ),
        has_room(header_contents(*old(headers)), 2int + propagated@.len()) ==> result is Ok,
{
}

/// `write_headers` does the same with the headers that the propagator sets for the
/// span.
pub proof fn law_response_is_written_for_its_span(
    span: &RequestSpan,
    correlation: &Correlation,
    headers: &mut HeaderMap,
    result: Result<(), HeadersFull>,
)
    requires
        call_ensures(write_headers, (span, correlation, headers), result),
    ensures
        is_propagated_for(span.span(), span.propagated()),
        result is Ok ==> header_contents(*final(headers)) == written_response(
            header_contents(*old(headers)),
            correlation.op_id@,
            correlation.request_id@,
            span.propagated(),
        ),
        result is Err ==> is_cut_short(
            header_contents(*final(headers)),
            header_contents(*old(headers)),
            correlation.op_id@,
            correlation.request_id@,
            span.propagated(),
        ),
        has_room(header_contents(*old(headers)), 2int + span.propagated().len()) ==> result is Ok,
{
}

/// `finish_response` writes a response as `write_headers` does and describes it as
/// `response_fields` does.
pub proof fn law_response_is_finished(
    span: &RequestSpan,
    correlation: &Correlation,
    status: u16,
    headers: &mut HeaderMap,
    result: Result<ResponseFields, HeadersFull>,
)
    requires
        call_ensures(finish_response, (span, correlation, status, headers), result),
    ensures
        is_propagated_for(span.span(), span.propagated()),
        result is Ok ==> {
            &&& header_contents(*final(headers)) == written_response(
                header_contents(*old(headers)),
                correlation.op_id@,
                correlation.request_id@,
                span.propagated(),
            )
            &&& result->Ok_0.status_code == status
            &&& result->Ok_0.otel_status_code is Some <==> status / 100 == 5
            &&& result->Ok_0.otel_status_code is Some ==> result->Ok_0.otel_status_code->0@
                == "ERROR"@
        },
        result is Err ==> is_cut_short(
            header_contents(*final(headers)),
            header_contents(*old(headers)),
            correlation.op_id@,
            correlation.request_id@,
            span.propagated(),
        ),
        has_room(header_contents(*old(headers)), 2int + span.propagated().len()) ==> result is Ok,
{
}

} // verus!
