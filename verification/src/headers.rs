//! Reading and writing HTTP headers.
//!
//! A header map is modelled by its contents: each header name, in lower case,
//! with the values it carries in order. Names compare without regard to ASCII
//! case. A value is a string of bytes, which may be marked as sensitive.
use crate::text::{ascii_bytes, ascii_text, lemma_bytes_of_text};
use axum::http::{HeaderMap, HeaderName, HeaderValue};
use opentelemetry::propagation::Injector;
use vstd::prelude::*;
use vstd::utf8::*;
use vstd::string::*;

verus! {

/// Number of distinct header names up to which a header map is sure to grow.
///
/// The table of a header map has at most 32768 slots, and a map that would have
/// to grow beyond that refuses the name. With fewer than a fifth of those slots
/// taken it never comes to that, however the names hash; this is where a fifth
/// begins. Most maps go on well past it.
pub const MAX_HEADER_NAMES: usize = 6554;

/// A header map refused to take a header.
#[derive(Debug, Clone, Copy, PartialEq, Eq, Structural)]
pub struct HeadersFull;

/// The header map of the `http` crate.
#[verifier::external_type_specification]
#[verifier::external_body]
#[verifier::reject_recursive_types(T)]
pub struct ExHeaderMap<T>(axum::http::HeaderMap<T>);

/// The header value of the `http` crate.
#[verifier::external_type_specification]
#[verifier::external_body]
pub struct ExHeaderValue(axum::http::HeaderValue);

/// What a header map holds: the lower-case names, each with its values in order.
/// A value is its bytes, and whether it is marked as sensitive.
pub uninterp spec fn header_contents(headers: HeaderMap) -> Map<Seq<char>, Seq<(Seq<u8>, bool)>>;

/// An ASCII letter in lower case, any other character as it is.
pub open spec fn lower_char(c: char) -> char {
    if 'A' <= c && c <= 'Z' {
        (c as int + 32) as char
    } else {
        c
    }
}

/// A header name as header maps store it.
pub open spec fn lower(name: Seq<char>) -> Seq<char> {
    Seq::new(name.len(), |i: int| lower_char(name[i]))
}

/// The characters that a header name is made of.
pub open spec fn is_name_char(c: char) -> bool {
    ||| 'a' <= c && c <= 'z'
    ||| 'A' <= c && c <= 'Z'
    ||| '0' <= c && c <= '9'
    ||| c == '!' || c == '#' || c == '$' || c == '%' || c == '&' || c == '\''
    ||| c == '*' || c == '+' || c == '-' || c == '.' || c == '^' || c == '_'
    ||| c == '`' || c == '|' || c == '~'
}

/// Whether a text is a header name.
pub open spec fn valid_header_name(name: Seq<char>) -> bool {
    &&& 0 < name.len() <= 65535
    &&& forall|i: int| 0 <= i < name.len() ==> is_name_char(#[trigger] name[i])
}

/// The bytes that a header value is made of: all but the control characters,
/// of which only the tab is let in.
pub open spec fn is_value_byte(b: u8) -> bool {
    b == 9 || (b >= 32 && b != 127)
}

/// Whether a byte string is a header value.
pub open spec fn valid_header_value(value: Seq<u8>) -> bool {
    forall|i: int| 0 <= i < value.len() ==> is_value_byte(#[trigger] value[i])
}

/// The bytes that a header value may hold to be read as text.
pub open spec fn is_text_byte(b: u8) -> bool {
    b == 9 || 32 <= b < 127
}

/// Whether a header value can be read as text.
pub open spec fn is_text(value: Seq<u8>) -> bool {
    forall|i: int| 0 <= i < value.len() ==> is_text_byte(#[trigger] value[i])
}

/// The first value of the named header, with its mark.
pub open spec fn first_entry(
    contents: Map<Seq<char>, Seq<(Seq<u8>, bool)>>,
    name: Seq<char>,
) -> Option<(Seq<u8>, bool)> {
    if contents.contains_key(lower(name)) {
        Some(contents[lower(name)][0])
    } else {
        None
    }
}

/// The first value of the named header.
pub open spec fn first_value(
    contents: Map<Seq<char>, Seq<(Seq<u8>, bool)>>,
    name: Seq<char>,
) -> Option<Seq<u8>> {
    match first_entry(contents, name) {
        Some((value, _)) => Some(value),
        None => None,
    }
}

/// The first value of the named header, where it can be read as text.
pub open spec fn header_text(
    contents: Map<Seq<char>, Seq<(Seq<u8>, bool)>>,
    name: Seq<char>,
) -> Option<Seq<char>> {
    match first_value(contents, name) {
        Some(value) => if is_text(value) {
            Some(ascii_text(value))
        } else {
            None
        },
        None => None,
    }
}

/// The contents after the named header was given this value and no other.
pub open spec fn with_header(
    contents: Map<Seq<char>, Seq<(Seq<u8>, bool)>>,
    name: Seq<char>,
    value: (Seq<u8>, bool),
) -> Map<Seq<char>, Seq<(Seq<u8>, bool)>> {
    contents.insert(lower(name), seq![value])
}

/// The contents after the named header was given one more value.
pub open spec fn with_added_header(
    contents: Map<Seq<char>, Seq<(Seq<u8>, bool)>>,
    name: Seq<char>,
    value: (Seq<u8>, bool),
) -> Map<Seq<char>, Seq<(Seq<u8>, bool)>> {
    if contents.contains_key(lower(name)) {
        contents.insert(lower(name), contents[lower(name)].push(value))
    } else {
        with_header(contents, name, value)
    }
}

/// The contents after a propagator asked for a header to be set: headers that
/// are not well-formed are left out.
pub open spec fn with_injected_header(
    contents: Map<Seq<char>, Seq<(Seq<u8>, bool)>>,
    key: Seq<char>,
    value: Seq<char>,
) -> Map<Seq<char>, Seq<(Seq<u8>, bool)>> {
    if valid_header_name(key) && valid_header_value(encode_utf8(value)) {
        with_header(contents, key, (encode_utf8(value), false))
    } else {
        contents
    }
}

/// Whether a header map holds this many names.
pub open spec fn name_count(contents: Map<Seq<char>, Seq<(Seq<u8>, bool)>>, count: int) -> bool {
    &&& contents.dom().finite()
    &&& contents.dom().len() == count
}

/// Whether a header map is sure to take `extra` more names, one after the other.
pub open spec fn has_room(contents: Map<Seq<char>, Seq<(Seq<u8>, bool)>>, extra: int) -> bool {
    &&& contents.dom().finite()
    &&& contents.dom().len() + extra <= MAX_HEADER_NAMES
}

/// `HeaderMap::get`: the first value that is stored under the name, as its bytes
/// and its `HeaderValue::is_sensitive` mark, or nothing where the map does not
/// hold the name.
#[verifier::external_body]
pub(crate) fn header_get<'a>(headers: &'a HeaderMap, name: &str) -> (entry: Option<
    (&'a [u8], bool),
>)
    requires
        valid_header_name(name@),
    ensures
        match entry {
            Some(e) => first_entry(header_contents(*headers), name@) == Some((e.0@, e.1)),
            None => first_entry(header_contents(*headers), name@) is None,
        },
{
    match headers.get(name) {
        Some(value) => Some((value.as_bytes(), value.is_sensitive())),
        None => None,
    }
}

/// `HeaderMap::try_insert`, of which only the verdict is kept: the value, with
/// its sensitive mark as given, takes the place of all values that were stored
/// under the name, unless the map refuses to grow.
///
/// When a map without room refuses is up to how its names hash, and is not said
/// here.
#[verifier::external_body]
fn header_insert(
    headers: &mut HeaderMap,
    name: &str,
    value: &[u8],
    sensitive: bool,
) -> (taken: bool)
    requires
        valid_header_name(name@),
        valid_header_value(value@),
    ensures
        taken ==> header_contents(*final(headers)) == with_header(
            header_contents(*old(headers)),
            name@,
            (value@, sensitive),
        ),
        !taken ==> header_contents(*final(headers)) == header_contents(*old(headers)),
        has_room(header_contents(*old(headers)), 1) ==> taken,
{
    let name = HeaderName::from_bytes(name.as_bytes()).unwrap();
    let mut value = HeaderValue::from_bytes(value).unwrap();
    value.set_sensitive(sensitive);
    headers.try_insert(name, value).is_ok()
}

/// `HeaderMap::try_append`, of which only the verdict is kept: the value, which
/// is not marked as sensitive, comes after those that were stored under the
/// name, unless the map refuses to grow.
///
/// When a map without room refuses is up to how its names hash, and is not said
/// here.
#[verifier::external_body]
fn header_append(headers: &mut HeaderMap, name: &str, value: &[u8]) -> (taken: bool)
    requires
        valid_header_name(name@),
        valid_header_value(value@),
    ensures
        taken ==> header_contents(*final(headers)) == with_added_header(
            header_contents(*old(headers)),
            name@,
            (value@, false),
        ),
        !taken ==> header_contents(*final(headers)) == header_contents(*old(headers)),
        has_room(header_contents(*old(headers)), 1) ==> taken,
{
    let name = HeaderName::from_bytes(name.as_bytes()).unwrap();
    headers.try_append(name, HeaderValue::from_bytes(value).unwrap()).is_ok()
}

/// Whether a header map with these contents refused to be given this header: an
/// attempt came out so.
pub closed spec fn is_set_refused(
    contents: Map<Seq<char>, Seq<(Seq<u8>, bool)>>,
    name: Seq<char>,
    value: (Seq<u8>, bool),
) -> bool {
    exists|headers: &mut HeaderMap, n: &str, bytes: &[u8]| #[trigger]
        call_ensures(header_insert, (headers, n, bytes, value.1), false) && header_contents(
            *headers,
        ) == contents && n@ == name && bytes@ == value.0
}

/// Whether a header map with these contents refused to be given this header on
/// top of those that it has: an attempt came out so.
pub closed spec fn is_add_refused(
    contents: Map<Seq<char>, Seq<(Seq<u8>, bool)>>,
    name: Seq<char>,
    value: Seq<u8>,
) -> bool {
    exists|headers: &mut HeaderMap, n: &str, bytes: &[u8]| #[trigger]
        call_ensures(header_append, (headers, n, bytes), false) && header_contents(*headers)
            == contents && n@ == name && bytes@ == value
}

/// Gives a header this value and no other, unless the map refuses it.
pub(crate) fn set_header(
    headers: &mut HeaderMap,
    name: &str,
    value: &[u8],
    sensitive: bool,
) -> (taken: bool)
    requires
        valid_header_name(name@),
        valid_header_value(value@),
    ensures
        taken ==> header_contents(*final(headers)) == with_header(
            header_contents(*old(headers)),
            name@,
            (value@, sensitive),
        ),
        !taken ==> header_contents(*final(headers)) == header_contents(*old(headers))
            && is_set_refused(header_contents(*old(headers)), name@, (value@, sensitive)),
        has_room(header_contents(*old(headers)), 1) ==> taken,
{
    let taken = header_insert(headers, name, value, sensitive);
    assert((value@, sensitive).1 == sensitive);
    taken
}

/// Gives a header one more value, unless the map refuses it.
pub(crate) fn add_header(headers: &mut HeaderMap, name: &str, value: &[u8]) -> (taken: bool)
    requires
        valid_header_name(name@),
        valid_header_value(value@),
    ensures
        taken ==> header_contents(*final(headers)) == with_added_header(
            header_contents(*old(headers)),
            name@,
            (value@, false),
        ),
        !taken ==> header_contents(*final(headers)) == header_contents(*old(headers))
            && is_add_refused(header_contents(*old(headers)), name@, value@),
        has_room(header_contents(*old(headers)), 1) ==> taken,
{
    header_append(headers, name, value)
}

/// `HeaderMap::keys_len`: the number of names that are stored.
#[verifier::external_body]
fn header_names(headers: &HeaderMap) -> (count: usize)
    ensures
        name_count(header_contents(*headers), count as int),
{
    headers.keys_len()
}

/// `HeaderValue::to_str`: the text of a value that holds nothing but visible
/// ASCII, spaces and tabs. Bytes that are no header value hold something else.
#[verifier::external_body]
pub(crate) fn value_to_str(value: &[u8]) -> (text: Option<String>)
    ensures
        match text {
            Some(text) => is_text(value@) && text@ == ascii_text(value@),
            None => !is_text(value@),
        },
{
    let value = HeaderValue::from_bytes(value).ok()?;
    match value.to_str() {
        Ok(text) => Some(text.to_owned()),
        Err(_) => None,
    }
}

/// `HeaderName::from_bytes`, of which only the verdict is kept: it takes what
/// is made of name characters, is not empty and is not too long.
#[verifier::external_body]
fn name_is_valid(name: &str) -> (valid: bool)
    ensures
        valid == valid_header_name(name@),
{
    HeaderName::from_bytes(name.as_bytes()).is_ok()
}

/// `HeaderValue::from_str`, of which only the verdict is kept: it takes every
/// text without control characters other than the tab.
#[verifier::external_body]
fn value_is_valid(value: &str) -> (valid: bool)
    ensures
        valid == valid_header_value(encode_utf8(value@)),
{
    HeaderValue::from_str(value).is_ok()
}

/// Tells whether a header map is sure to take `extra` more names.
pub fn room_for(headers: &HeaderMap, extra: usize) -> (room: bool)
    ensures
        room == has_room(header_contents(*headers), extra as int),
{
    let count = header_names(headers);
    count <= MAX_HEADER_NAMES && extra <= MAX_HEADER_NAMES - count
}

/// Reads the first value of the named header as text.
pub(crate) fn read_header_text(headers: &HeaderMap, name: &str) -> (text: Option<String>)
    requires
        valid_header_name(name@),
    ensures
        match text {
            Some(text) => header_text(header_contents(*headers), name@) == Some(text@),
            None => header_text(header_contents(*headers), name@) is None,
        },
{
    match header_get(headers, name) {
        Some((value, _)) => value_to_str(value),
        None => None,
    }
}

/// Tells whether the first value of the named header is the given ASCII text.
pub(crate) fn header_is(headers: &HeaderMap, name: &str, expected: &str) -> (same: bool)
    requires
        valid_header_name(name@),
        is_ascii_chars(expected@),
    ensures
        same == (first_value(header_contents(*headers), name@) == Some(ascii_bytes(expected@))),
{
    match header_get(headers, name) {
        Some((value, _)) => {
            let expected_bytes = expected.as_bytes();
            proof {
                lemma_bytes_of_text(expected@);
            }
            if value.len() != expected_bytes.len() {
                return false;
            }
            let mut i: usize = 0;
            while i < value.len()
                invariant
                    i <= value.len(),
                    value.len() == expected_bytes.len(),
                    expected_bytes@ == ascii_bytes(expected@),
                    first_value(header_contents(*headers), name@) == Some(value@),
                    forall|j: int| 0 <= j < i ==> value@[j] == expected_bytes@[j],
                decreases value.len() - i,
            {
                if value[i] != expected_bytes[i] {
                    return false;
                }
                i = i + 1;
            }
            assert(value@ =~= expected_bytes@);
            true
        },
        None => false,
    }
}

/// An ASCII letter in lower case, any other ASCII character as it is.
fn lower_byte(b: u8) -> (lowered: u8)
    requires
        b < 128,
    ensures
        lowered < 128,
        lowered as char == lower_char(b as char),
{
    if 65 <= b && b <= 90 {
        b + 32
    } else {
        b
    }
}

/// Tells whether a header name and an ASCII header name are the same but for
/// case.
pub(crate) fn same_name(name: &str, expected: &str) -> (same: bool)
    requires
        is_ascii_chars(expected@),
    ensures
        same == (lower(name@) == lower(expected@)),
{
    if !name.is_ascii() {
        proof {
            let i = choose|i: int|
                0 <= i < name@.len() && !('\0' <= #[trigger] name@[i] <= '\u{7f}');
            if lower(name@) == lower(expected@) {
                assert(name@.len() == lower(name@).len() == expected@.len());
                assert(lower(name@)[i] == lower(expected@)[i]);
                assert('\0' <= expected@[i] <= '\u{7f}');
            }
        }
        return false;
    }
    proof {
        lemma_bytes_of_text(name@);
        lemma_bytes_of_text(expected@);
    }
    let a = name.as_bytes();
    let b = expected.as_bytes();
    if a.len() != b.len() {
        assert(lower(name@).len() != lower(expected@).len());
        return false;
    }
    let mut i: usize = 0;
    while i < a.len()
        invariant
            i <= a.len(),
            a.len() == b.len(),
            a@ == ascii_bytes(name@),
            b@ == ascii_bytes(expected@),
            is_ascii_chars(name@),
            is_ascii_chars(expected@),
            forall|j: int| 0 <= j < i ==> lower(name@)[j] == lower(expected@)[j],
        decreases a.len() - i,
    {
        assert(a@[i as int] as char == name@[i as int]);
        assert(b@[i as int] as char == expected@[i as int]);
        if lower_byte(a[i]) != lower_byte(b[i]) {
            assert(lower(name@)[i as int] != lower(expected@)[i as int]);
            return false;
        }
        i = i + 1;
    }
    assert(lower(name@) =~= lower(expected@));
    true
}

/// Sets a header that a trace context propagator asks for, and tells whether
/// the header map took it.
///
/// A key that is no header name, and a value that is no header value, are
/// passed over.
pub(crate) fn inject_header(headers: &mut HeaderMap, key: &str, value: &str) -> (taken: bool)
    ensures
        taken ==> header_contents(*final(headers)) == with_injected_header(
            header_contents(*old(headers)),
            key@,
            value@,
        ),
        !taken ==> header_contents(*final(headers)) == header_contents(*old(headers))
            && is_set_refused(
            header_contents(*old(headers)),
            key@,
            (encode_utf8(value@), false),
        ),
        has_room(header_contents(*old(headers)), 1) ==> taken,
{
    if name_is_valid(key) && value_is_valid(value) {
        set_header(headers, key, value.as_bytes(), false)
    } else {
        true
    }
}

/// Carries the headers that a trace context propagator asks for into a header
/// map.
pub struct HeaderInjector<'a>(pub &'a mut HeaderMap);

impl<'a> Injector for HeaderInjector<'a> {
    /// Sets a header.
    ///
    /// A key that is no header name and a value that is no header value are
    /// passed over. Other than that, only a header that the map itself refuses
    /// is left out.
    fn set(&mut self, key: &str, value: String)
        ensures
            has_room(header_contents(*old(self).0), 1) ==> header_contents(*final(self).0)
                == with_injected_header(header_contents(*old(self).0), key@, value@),
            header_contents(*final(self).0) == with_injected_header(
                header_contents(*old(self).0),
                key@,
                value@,
            ) || header_contents(*final(self).0) == header_contents(*old(self).0) && is_set_refused(
                header_contents(*old(self).0),
                key@,
                (encode_utf8(value@), false),
            ),
    {
        let _ = inject_header(&mut *self.0, key, value.as_str());
    }
}

/// A header map that takes some more names takes one less after a header was
/// set.
pub proof fn lemma_room_after_header(
    contents: Map<Seq<char>, Seq<(Seq<u8>, bool)>>,
    name: Seq<char>,
    value: (Seq<u8>, bool),
    extra: int,
)
    requires
        has_room(contents, extra),
    ensures
        has_room(with_header(contents, name, value), extra - 1),
{
    assert(with_header(contents, name, value).dom() =~= contents.dom().insert(lower(name)));
}

/// Two names are kept as one if and only if they are equal but for the case of
/// ASCII letters.
pub proof fn law_names_compare_without_case(a: Seq<char>, b: Seq<char>)
    ensures
        lower(a) == lower(b) <==> a.len() == b.len() && (forall|i: int|
            0 <= i < a.len() ==> {
                ||| #[trigger] a[i] == b[i]
                ||| 'A' <= a[i] <= 'Z' && a[i] as int + 32 == b[i] as int
                ||| 'A' <= b[i] <= 'Z' && b[i] as int + 32 == a[i] as int
            }),
        lower(lower(a)) == lower(a),
{
    if lower(a) == lower(b) {
        assert(lower(a).len() == lower(b).len());
        assert forall|i: int| 0 <= i < a.len() implies {
            ||| #[trigger] a[i] == b[i]
            ||| 'A' <= a[i] <= 'Z' && a[i] as int + 32 == b[i] as int
            ||| 'A' <= b[i] <= 'Z' && b[i] as int + 32 == a[i] as int
        } by {
            assert(lower(a)[i] == lower(b)[i]);
        }
    }
    if a.len() == b.len() && (forall|i: int|
        0 <= i < a.len() ==> {
            ||| #[trigger] a[i] == b[i]
            ||| 'A' <= a[i] <= 'Z' && a[i] as int + 32 == b[i] as int
            ||| 'A' <= b[i] <= 'Z' && b[i] as int + 32 == a[i] as int
        }) {
        assert forall|i: int| 0 <= i < a.len() implies lower(a)[i] == lower(b)[i] by {
            assert(a[i] == b[i] || 'A' <= a[i] <= 'Z' || 'A' <= b[i] <= 'Z');
        }
        assert(lower(a) =~= lower(b));
    }
    assert(lower(lower(a)) =~= lower(a));
}

/// A header name is visible ASCII without delimiters: every character from `!`
/// to `~` counts but for quotes, parentheses, brackets, braces and
/// ``,/:;<=>?@\``.
pub proof fn law_header_names_hold_no_delimiters(name: Seq<char>)
    ensures
        valid_header_name(name) <==> 1 <= name.len() <= 65535 && (forall|i: int|
            0 <= i < name.len() ==> {
                let c = #[trigger] name[i];
                &&& 0x21 <= c as int <= 0x7e
                &&& c != '"' && c != '(' && c != ')' && c != ',' && c != '/' && c != ':' && c != ';'
                &&& c != '<' && c != '=' && c != '>' && c != '?' && c != '@' && c != '['
                &&& c != '\\' && c != ']' && c != '{' && c != '}'
            }),
{
    assert forall|c: char| #[trigger] is_name_char(c) == {
        &&& 0x21 <= c as int <= 0x7e
        &&& c != '"' && c != '(' && c != ')' && c != ',' && c != '/' && c != ':' && c != ';'
        &&& c != '<' && c != '=' && c != '>' && c != '?' && c != '@' && c != '['
        &&& c != '\\' && c != ']' && c != '{' && c != '}'
    } by {}
    if valid_header_name(name) {
        assert forall|i: int| 0 <= i < name.len() implies is_name_char(#[trigger] name[i]) by {}
    }
}

/// A header value holds no control character but the tab.
pub proof fn law_header_values_hold_no_control_characters(value: Seq<u8>)
    ensures
        valid_header_value(value) <==> (forall|i: int|
            0 <= i < value.len() ==> ((#[trigger] value[i]) as int >= 0x20 || value[i] as int == 9)
                && value[i] as int != 0x7f),
{
    if forall|i: int|
        0 <= i < value.len() ==> ((#[trigger] value[i]) as int >= 0x20 || value[i] as int == 9)
            && value[i] as int != 0x7f {
        assert forall|i: int| 0 <= i < value.len() implies is_value_byte(#[trigger] value[i]) by {}
    }
    if valid_header_value(value) {
        assert forall|i: int| 0 <= i < value.len() implies ((#[trigger] value[i]) as int >= 0x20
            || value[i] as int == 9) && value[i] as int != 0x7f by {
            assert(is_value_byte(value[i]));
        }
    }
}

/// A header is read as text if and only if its first value holds nothing but
/// tabs and printable ASCII; the text has the codes of the bytes.
pub proof fn law_header_text_is_printable_ascii(
    contents: Map<Seq<char>, Seq<(Seq<u8>, bool)>>,
    name: Seq<char>,
    text: Seq<char>,
)
    ensures
        header_text(contents, name) == Some(text) <==> {
            &&& contents.contains_key(lower(name))
            &&& text.len() == contents[lower(name)][0].0.len()
            &&& forall|i: int|
                0 <= i < text.len() ==> {
                    &&& #[trigger] text[i] as int == contents[lower(name)][0].0[i] as int
                    &&& text[i] as int == 9 || 0x20 <= text[i] as int <= 0x7e
                }
        },
        header_text(contents, name) is None <==> !contents.contains_key(lower(name)) || exists|
            i: int,
        |
            0 <= i < contents[lower(name)][0].0.len() && {
                let b = #[trigger] contents[lower(name)][0].0[i];
                b as int != 9 && !(0x20 <= b as int <= 0x7e)
            },
{
    if contents.contains_key(lower(name)) {
        let value = contents[lower(name)][0].0;
        assert(is_text(value) <==> forall|i: int|
            0 <= i < value.len() ==> is_text_byte(#[trigger] value[i]));
        if text.len() == value.len() && (forall|i: int|
            0 <= i < text.len() ==> {
                &&& #[trigger] text[i] as int == value[i] as int
                &&& text[i] as int == 9 || 0x20 <= text[i] as int <= 0x7e
            }) {
            assert forall|i: int| 0 <= i < value.len() implies is_text_byte(#[trigger] value[i]) by {
                assert(text[i] as int == value[i] as int);
            }
            assert forall|i: int| 0 <= i < text.len() implies text[i] == ascii_text(value)[i] by {
                assert(text[i] as int == value[i] as int);
                assert(is_text_byte(value[i]));
            }
            assert(text =~= ascii_text(value));
        }
        if is_text(value) && text == ascii_text(value) {
            assert forall|i: int| 0 <= i < text.len() implies {
                &&& #[trigger] text[i] as int == value[i] as int
                &&& text[i] as int == 9 || 0x20 <= text[i] as int <= 0x7e
            } by {
                assert(is_text_byte(value[i]));
            }
        }
        if !is_text(value) {
            let i = choose|i: int| 0 <= i < value.len() && !is_text_byte(#[trigger] value[i]);
            assert(contents[lower(name)][0].0[i] == value[i]);
        }
    }
}

/// What is first read under a name is the first value that is kept under it, in
/// whatever case the name is written.
pub proof fn law_first_value_is_read(
    contents: Map<Seq<char>, Seq<(Seq<u8>, bool)>>,
    name: Seq<char>,
)
    ensures
        contents.contains_key(lower(name)) ==> first_entry(contents, name) == Some(
            contents[lower(name)][0],
        ) && first_value(contents, name) == Some(contents[lower(name)][0].0),
        !contents.contains_key(lower(name)) ==> first_entry(contents, name) is None && first_value(
            contents,
            name,
        ) is None,
{
}

/// A header that was set is read back, once and as it was set; all others read
/// as before.
pub proof fn law_set_header_is_read_back(
    contents: Map<Seq<char>, Seq<(Seq<u8>, bool)>>,
    name: Seq<char>,
    value: (Seq<u8>, bool),
    other: Seq<char>,
)
    ensures
        ({
            let written = with_header(contents, name, value);
            &&& written.contains_key(lower(name))
            &&& written[lower(name)].len() == 1
            &&& written[lower(name)][0] == value
            &&& other != lower(name) ==> {
                &&& written.contains_key(other) == contents.contains_key(other)
                &&& written[other] == contents[other]
            }
        }),
{
}

/// A header that was added comes last under its name, behind all values that
/// were there; all others read as before.
pub proof fn law_added_header_comes_last(
    contents: Map<Seq<char>, Seq<(Seq<u8>, bool)>>,
    name: Seq<char>,
    value: (Seq<u8>, bool),
    other: Seq<char>,
)
    ensures
        ({
            let written = with_added_header(contents, name, value);
            let values = written[lower(name)];
            &&& written.contains_key(lower(name))
            &&& values.last() == value
            &&& contents.contains_key(lower(name)) ==> values.drop_last() == contents[lower(name)]
            &&& !contents.contains_key(lower(name)) ==> values.len() == 1
            &&& values.len() > 0
            &&& other != lower(name) ==> {
                &&& written.contains_key(other) == contents.contains_key(other)
                &&& written[other] == contents[other]
            }
        }),
{
    if contents.contains_key(lower(name)) {
        assert(contents[lower(name)].push(value).drop_last() =~= contents[lower(name)]);
    }
}

/// A well-formed header that a propagator asks for is read back, once, with the
/// bytes of its text and without a mark. One that is not well-formed changes
/// nothing.
pub proof fn law_injected_header_is_read_back(
    contents: Map<Seq<char>, Seq<(Seq<u8>, bool)>>,
    key: Seq<char>,
    value: Seq<char>,
    other: Seq<char>,
)
    ensures
        ({
            let written = with_injected_header(contents, key, value);
            if valid_header_name(key) && valid_header_value(encode_utf8(value)) {
                &&& written.contains_key(lower(key))
                &&& written[lower(key)].len() == 1
                &&& written[lower(key)][0] == (encode_utf8(value), false)
                &&& other != lower(key) ==> {
                    &&& written.contains_key(other) == contents.contains_key(other)
                    &&& written[other] == contents[other]
                }
            } else {
                written == contents
            }
        }),
{
}

/// A header map has room for more names as long as it ends up with no more than
/// 6554 of them.
pub proof fn law_room_is_counted_in_names(
    contents: Map<Seq<char>, Seq<(Seq<u8>, bool)>>,
    extra: int,
)
    requires
        contents.dom().finite(),
    ensures
        has_room(contents, extra) <==> contents.dom().len() + extra <= 6554,
        forall|count: int| #[trigger]
            name_count(contents, count) <==> count == contents.dom().len(),
{
}

/// A header map refuses a header only where there is no sure room for a name, and
/// only where it was asked to take the header.
proof fn law_refusal_is_an_outcome(
    contents: Map<Seq<char>, Seq<(Seq<u8>, bool)>>,
    name: Seq<char>,
    value: (Seq<u8>, bool),
)
    ensures
        is_set_refused(contents, name, value) ==> exists|
            headers: &mut HeaderMap,
            n: &str,
            bytes: &[u8],
        | #[trigger]
            call_ensures(header_insert, (headers, n, bytes, value.1), false) && header_contents(
                *headers,
            ) == contents && n@ == name && bytes@ == value.0,
        is_add_refused(contents, name, value.0) ==> exists|
            headers: &mut HeaderMap,
            n: &str,
            bytes: &[u8],
        | #[trigger]
            call_ensures(header_append, (headers, n, bytes), false) && header_contents(*headers)
                == contents && n@ == name && bytes@ == value.0,
{
}

/// A header map with sure room for another name refuses nothing.
pub proof fn law_nothing_is_refused_where_there_is_room(
    contents: Map<Seq<char>, Seq<(Seq<u8>, bool)>>,
    name: Seq<char>,
    value: (Seq<u8>, bool),
)
    requires
        has_room(contents, 1),
    ensures
        !is_set_refused(contents, name, value),
        !is_add_refused(contents, name, value.0),
{
}

/// `room_for` tells whether a header map ends up with no more than 6554 names.
pub proof fn law_room_is_told(headers: &HeaderMap, extra: usize, room: bool)
    requires
        call_ensures(room_for, (headers, extra), room),
        header_contents(*headers).dom().finite(),
    ensures
        room <==> header_contents(*headers).dom().len() + extra <= 6554,
{
}

} // verus!
