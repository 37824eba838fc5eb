//! Identifiers that clients and proxies assign to requests.
use crate::api::{lemma_names_are_valid, REQUEST_ID};
use crate::headers::{
    first_entry, header_contents, header_get, is_text, is_text_byte, lower, valid_header_value,
    value_to_str,
};
use crate::text::{ascii_bytes, ascii_text, law_ascii_keeps_codes, lemma_bytes_of_text};
use crate::uuid_text::{
    hyphenated, is_drawn, law_drawn_bytes_are_an_outcome, lemma_hyphenated_is_visible,
    lemma_outcome_is_drawn, random_uuid, uuid_to_text,
};
use axum::http::HeaderMap;
use vstd::prelude::*;
use vstd::utf8::*;
use vstd::string::*;

verus! {

/// Longest inbound `X-Request-Id` that is echoed back.
pub const MAX_REQUEST_ID_LEN: usize = 128;

/// Whether a text is safe to echo in response headers and log fields: short
/// and nothing but visible ASCII.
pub open spec fn is_safe_to_echo(text: Seq<char>) -> bool {
    &&& 0 < text.len() <= MAX_REQUEST_ID_LEN
    &&& forall|i: int| 0 <= i < text.len() ==> '!' <= #[trigger] text[i] <= '~'
}

/// The inbound request ID that is adopted: the first `X-Request-Id`, where it
/// is safe to echo, with its mark.
pub open spec fn adopted_request_id(contents: Map<Seq<char>, Seq<(Seq<u8>, bool)>>) -> Option<
    (Seq<char>, bool),
> {
    match first_entry(contents, REQUEST_ID@) {
        Some((value, sensitive)) => if is_text(value) && is_safe_to_echo(ascii_text(value)) {
            Some((ascii_text(value), sensitive))
        } else {
            None
        },
        None => None,
    }
}

/// Draws the bytes of a request ID.
fn draw_request_id() -> (bytes: [u8; 16])
    ensures
        is_drawn(bytes@),
{
    let bytes = random_uuid();
    proof {
        lemma_outcome_is_drawn(bytes);
    }
    bytes
}

/// Whether these bytes were drawn for a request ID, and not for anything else.
pub closed spec fn is_drawn_request_id(bytes: Seq<u8>) -> bool {
    exists|drawn: [u8; 16]| #[trigger] call_ensures(draw_request_id, (), drawn) && drawn@ == bytes
}

/// Bytes that were drawn for a request ID were drawn.
pub proof fn lemma_drawn_request_id(bytes: Seq<u8>)
    requires
        is_drawn_request_id(bytes),
    ensures
        is_drawn(bytes),
{
}

/// Whether a request ID is one that the server generated: a UUID that was drawn
/// at random for it.
pub open spec fn is_generated(id: (Seq<char>, bool)) -> bool {
    exists|bytes: Seq<u8>| is_drawn_request_id(bytes) && id == (#[trigger] hyphenated(bytes), false)
}

/// Whether a request with these headers may be given this request ID: the
/// adopted one where there is one, any generated one otherwise.
pub open spec fn is_request_id_for(
    id: (Seq<char>, bool),
    contents: Map<Seq<char>, Seq<(Seq<u8>, bool)>>,
) -> bool {
    match adopted_request_id(contents) {
        Some(adopted) => id == adopted,
        None => is_generated(id),
    }
}

/// A text that is safe to echo is a header value, and survives being read back
/// as text.
pub proof fn lemma_safe_text(text: Seq<char>)
    requires
        is_safe_to_echo(text),
    ensures
        is_ascii_chars(text),
        encode_utf8(text) == ascii_bytes(text),
        valid_header_value(ascii_bytes(text)),
        is_text(ascii_bytes(text)),
        ascii_text(ascii_bytes(text)) == text,
{
    lemma_bytes_of_text(text);
}

/// Tells whether an ASCII text is safe to echo.
fn check_safe_to_echo(text: &str) -> (safe: bool)
    requires
        is_ascii_chars(text@),
    ensures
        safe == is_safe_to_echo(text@),
{
    proof {
        lemma_bytes_of_text(text@);
    }
    let bytes = text.as_bytes();
    if bytes.len() == 0 || bytes.len() > MAX_REQUEST_ID_LEN {
        return false;
    }
    let mut i: usize = 0;
    while i < bytes.len()
        invariant
            i <= bytes.len(),
            bytes@ == ascii_bytes(text@),
            is_ascii_chars(text@),
            forall|j: int| 0 <= j < i ==> '!' <= #[trigger] text@[j] <= '~',
        decreases bytes.len() - i,
    {
        assert(bytes@[i as int] == text@[i as int] as u8);
        if bytes[i] < 33 || bytes[i] > 126 {
            return false;
        }
        i = i + 1;
    }
    true
}

/// A client- or proxy-supplied request identifier, or one that the server
/// generated in its place. Its text is safe to echo.
#[derive(Debug)]
pub struct RequestId {
    text: String,
    sensitive: bool,
}

impl View for RequestId {
    type V = (Seq<char>, bool);

    /// The text, and whether it came in as a sensitive header value.
    closed spec fn view(&self) -> (Seq<char>, bool) {
        (self.text@, self.sensitive)
    }
}

impl RequestId {
    #[verifier::type_invariant]
    spec fn is_safe(self) -> bool {
        is_safe_to_echo(self.text@)
    }

    /// Adopts an inbound `X-Request-Id`, if it is safe to echo back.
    ///
    /// The value ends up in response headers and log fields, so anything that
    /// is not short, visible ASCII is rejected in favour of a generated ID.
    pub fn from_headers(headers: &HeaderMap) -> (id: Option<RequestId>)
        ensures
            match id {
                Some(id) => adopted_request_id(header_contents(*headers)) == Some(id@),
                None => adopted_request_id(header_contents(*headers)) is None,
            },
    {
        proof {
            lemma_names_are_valid();
        }
        let (value, sensitive) = match header_get(headers, REQUEST_ID) {
            Some(entry) => entry,
            None => return None,
        };
        match value_to_str(value) {
            Some(text) => if check_safe_to_echo(text.as_str()) {
                Some(RequestId { text, sensitive })
            } else {
                None
            },
            None => None,
        }
    }

    /// The request ID that is made of a UUID.
    pub fn from_uuid(bytes: [u8; 16]) -> (id: RequestId)
        ensures
            id@ == (hyphenated(bytes@), false),
    {
        let text = uuid_to_text(&bytes);
        proof {
            lemma_hyphenated_is_visible(bytes@);
        }
        RequestId { text, sensitive: false }
    }

    /// A fresh request ID, made of a random UUID.
    pub fn generate() -> (id: RequestId)
        ensures
            is_generated(id@),
    {
        let bytes = draw_request_id();
        assert(call_ensures(draw_request_id, (), bytes));
        RequestId::from_uuid(bytes)
    }

    /// The request ID for a request with these headers: the inbound one where
    /// it is adopted, a fresh one otherwise.
    pub fn for_headers(headers: &HeaderMap) -> (id: RequestId)
        ensures
            is_request_id_for(id@, header_contents(*headers)),
    {
        match RequestId::from_headers(headers) {
            Some(id) => id,
            None => RequestId::generate(),
        }
    }

    /// The text of the request ID.
    pub fn as_str(&self) -> (text: &str)
        ensures
            text@ == self@.0,
            is_safe_to_echo(text@),
    {
        proof {
            use_type_invariant(self);
        }
        self.text.as_str()
    }

    /// The text of the request ID, as it appears in logs.
    pub fn to_string(&self) -> (text: String)
        ensures
            text@ == self@.0,
    {
        self.text.clone()
    }

    /// The request ID as the value of a header.
    pub fn header_value(&self) -> (value: Vec<u8>)
        ensures
            value@ == ascii_bytes(self@.0),
            valid_header_value(value@),
    {
        proof {
            use_type_invariant(self);
            lemma_safe_text(self@.0);
        }
        self.text.as_str().as_bytes_vec()
    }

    /// Whether the request ID is written as a sensitive header value: only if
    /// it came in as one.
    pub fn is_sensitive(&self) -> (sensitive: bool)
        ensures
            sensitive == self@.1,
    {
        self.sensitive
    }
}

impl Clone for RequestId {
    fn clone(&self) -> (copy: RequestId)
        ensures
            copy@ == self@,
    {
        proof {
            use_type_invariant(self);
        }
        RequestId { text: self.text.clone(), sensitive: self.sensitive }
    }
}

/// A text is safe to echo if and only if it has 1 to 128 characters, each of them
/// visible ASCII.
pub proof fn law_safe_text_is_short_and_visible(text: Seq<char>)
    ensures
        is_safe_to_echo(text) <==> 1 <= text.len() <= 128 && (forall|i: int|
            0 <= i < text.len() ==> 0x21 <= #[trigger] text[i] as int <= 0x7e),
{
    assert forall|i: int| 0 <= i < text.len() implies ('!' <= #[trigger] text[i] <= '~') == (0x21
        <= text[i] as int <= 0x7e) by {}
}

/// The first `X-Request-Id` of a request is adopted whenever it has 1 to 128
/// bytes of visible ASCII: the request ID is exactly those bytes, with the mark
/// that they came in with.
pub proof fn law_visible_request_id_is_adopted(
    contents: Map<Seq<char>, Seq<(Seq<u8>, bool)>>,
    id: (Seq<char>, bool),
)
    requires
        contents.contains_key("x-request-id"@),
        1 <= contents["x-request-id"@][0].0.len() <= 128,
        forall|i: int|
            0 <= i < contents["x-request-id"@][0].0.len() ==> 0x21
                <= #[trigger] contents["x-request-id"@][0].0[i] <= 0x7e,
        is_request_id_for(id, contents) || adopted_request_id(contents) == Some(id),
    ensures
        adopted_request_id(contents) == Some(id),
        id.0.len() == contents["x-request-id"@][0].0.len(),
        forall|i: int|
            0 <= i < id.0.len() ==> #[trigger] id.0[i] as int
                == contents["x-request-id"@][0].0[i] as int,
        id.1 == contents["x-request-id"@][0].1,
{
    lemma_request_id_name();
    let (value, sensitive) = contents["x-request-id"@][0];
    let text = ascii_text(value);
    assert(is_text(value));
    assert forall|i: int| 0 <= i < text.len() implies '!' <= #[trigger] text[i] <= '~' by {
        assert(value[i] == contents["x-request-id"@][0].0[i]);
    }
    assert forall|i: int| 0 <= i < id.0.len() implies #[trigger] id.0[i] as int == value[i] as int by {
        assert(0x21 <= contents["x-request-id"@][0].0[i] <= 0x7e);
    }
}

/// Any other request is given a generated ID, from a draw of its own: where `X-Request-Id` is missing,
/// empty, longer than 128 bytes or has a byte that is not visible ASCII.
proof fn law_other_request_id_is_replaced(
    contents: Map<Seq<char>, Seq<(Seq<u8>, bool)>>,
    id: (Seq<char>, bool),
)
    requires
        contents.contains_key("x-request-id"@) ==> {
            let value = contents["x-request-id"@][0].0;
            value.len() == 0 || value.len() > 128 || exists|i: int|
                0 <= i < value.len() && !(0x21 <= #[trigger] value[i] <= 0x7e)
        },
        is_request_id_for(id, contents),
    ensures
        adopted_request_id(contents) is None,
        !id.1,
        exists|drawn: [u8; 16]|
            #[trigger] call_ensures(draw_request_id, (), drawn) && id.0 == hyphenated(drawn@),
        exists|drawn: [u8; 16]|
            #[trigger] call_ensures(random_uuid, (), drawn) && id.0 == hyphenated(drawn@),
{
    lemma_request_id_name();
    if contents.contains_key("x-request-id"@) {
        let value = contents["x-request-id"@][0].0;
        let text = ascii_text(value);
        if is_text(value) && is_safe_to_echo(text) {
            assert forall|i: int| 0 <= i < value.len() implies 0x21 <= #[trigger] value[i] <= 0x7e by {
                assert('!' <= text[i] <= '~');
                assert(is_text_byte(value[i]));
            }
        }
    }
    let bytes = choose|bytes: Seq<u8>|
        is_drawn_request_id(bytes) && id == (#[trigger] hyphenated(bytes), false);
    lemma_drawn_request_id(bytes);
    law_drawn_bytes_are_an_outcome(bytes);
}

/// The name under which header maps keep `X-Request-Id`.
proof fn lemma_request_id_name()
    ensures
        lower(REQUEST_ID@) == "x-request-id"@,
{
    reveal_strlit("X-Request-Id");
    reveal_strlit("x-request-id");
    assert(lower(REQUEST_ID@) =~= "x-request-id"@);
}

/// A request whose `X-Request-Id` is missing, empty, longer than 128 bytes or not
/// all visible ASCII is given a UUID that was drawn at random for it, in
/// hyphenated form and unmarked.
pub proof fn law_unsafe_request_id_is_replaced_at_random(
    contents: Map<Seq<char>, Seq<(Seq<u8>, bool)>>,
    id: (Seq<char>, bool),
)
    requires
        contents.contains_key("x-request-id"@) ==> {
            let value = contents["x-request-id"@][0].0;
            value.len() == 0 || value.len() > 128 || exists|i: int|
                0 <= i < value.len() && !(0x21 <= #[trigger] value[i] <= 0x7e)
        },
        is_request_id_for(id, contents),
    ensures
        adopted_request_id(contents) is None,
        !id.1,
        exists|bytes: Seq<u8>|
            is_drawn_request_id(bytes) && is_drawn(bytes) && id.0 == #[trigger] hyphenated(bytes),
{
    law_other_request_id_is_replaced(contents, id);
    let bytes = choose|bytes: Seq<u8>|
        is_drawn_request_id(bytes) && id == (#[trigger] hyphenated(bytes), false);
    lemma_drawn_request_id(bytes);
}

/// `RequestId::from_headers` adopts a first `X-Request-Id` of 1 to 128 bytes of
/// visible ASCII as it is, and nothing else. `RequestId::for_headers` gives that one
/// where it is adopted, and otherwise one that was drawn at random for the request.
pub proof fn law_request_id_goes_by_the_header(
    headers: &HeaderMap,
    adopted: Option<RequestId>,
    id: RequestId,
)
    requires
        call_ensures(RequestId::from_headers, (headers,), adopted),
        call_ensures(RequestId::for_headers, (headers,), id),
    ensures
        ({
            let contents = header_contents(*headers);
            let value = contents["x-request-id"@][0].0;
            if contents.contains_key("x-request-id"@) && 1 <= value.len() <= 128 && (forall|i: int|
                0 <= i < value.len() ==> 0x21 <= #[trigger] value[i] <= 0x7e) {
                &&& adopted is Some
                &&& adopted->0@ == id@
                &&& id@.0.len() == value.len()
                &&& forall|i: int|
                    0 <= i < value.len() ==> #[trigger] id@.0[i] as int == value[i] as int
                &&& id@.1 == contents["x-request-id"@][0].1
            } else {
                &&& adopted is None
                &&& !id@.1
                &&& exists|bytes: Seq<u8>|
                    is_drawn_request_id(bytes) && is_drawn(bytes) && id@.0 == #[trigger] hyphenated(
                        bytes,
                    )
            }
        }),
{
    let contents = header_contents(*headers);
    let value = contents["x-request-id"@][0].0;
    if contents.contains_key("x-request-id"@) && 1 <= value.len() <= 128 && (forall|i: int|
        0 <= i < value.len() ==> 0x21 <= #[trigger] value[i] <= 0x7e) {
        law_visible_request_id_is_adopted(contents, id@);
    } else {
        law_unsafe_request_id_is_replaced_at_random(contents, id@);
    }
}

/// `RequestId::generate` draws a UUID of its own; `RequestId::from_uuid` writes the
/// one that it is given.
pub proof fn law_generated_request_id_is_drawn(id: RequestId, bytes: [u8; 16], made: RequestId)
    requires
        call_ensures(RequestId::generate, (), id),
        call_ensures(RequestId::from_uuid, (bytes,), made),
    ensures
        !id@.1,
        exists|bytes: Seq<u8>|
            is_drawn_request_id(bytes) && is_drawn(bytes) && id@.0 == #[trigger] hyphenated(bytes),
        made@ == (hyphenated(bytes@), false),
{
    let bytes = choose|bytes: Seq<u8>|
        is_drawn_request_id(bytes) && id@ == (#[trigger] hyphenated(bytes), false);
    lemma_drawn_request_id(bytes);
}

/// `RequestId::as_str`, `RequestId::to_string`, `RequestId::header_value` and
/// `RequestId::is_sensitive` tell the request ID as it is, and a clone is the same.
pub proof fn law_request_id_is_told_as_it_is(
    id: &RequestId,
    text: &str,
    owned: String,
    value: Vec<u8>,
    sensitive: bool,
    copy: RequestId,
    i: int,
)
    requires
        call_ensures(RequestId::as_str, (id,), text),
        call_ensures(RequestId::to_string, (id,), owned),
        call_ensures(RequestId::header_value, (id,), value),
        call_ensures(RequestId::is_sensitive, (id,), sensitive),
        call_ensures(RequestId::clone, (id,), copy),
        0 <= i < text@.len(),
    ensures
        text@ == id@.0,
        owned@ == id@.0,
        1 <= text@.len() <= 128,
        0x21 <= text@[i] as int <= 0x7e,
        value@.len() == text@.len(),
        value@[i] as int == text@[i] as int,
        sensitive == id@.1,
        copy@ == id@,
{
    law_safe_text_is_short_and_visible(text@);
    law_ascii_keeps_codes(Seq::empty(), text@, i);
}

} // verus!
