//! UUIDs and how they are written.
use crate::headers::valid_header_value;
use crate::text::ascii_bytes;
use uuid::Uuid;
use vstd::prelude::*;
use vstd::utf8::is_ascii_chars;

verus! {

/// The lower-case hexadecimal digit of a number below sixteen.
pub open spec fn hex_digit(n: int) -> char {
    if n < 10 {
        (48 + n) as char
    } else {
        (87 + n) as char
    }
}

/// The hexadecimal digits of a byte string, two for each byte.
pub open spec fn hex_text(bytes: Seq<u8>) -> Seq<char> {
    Seq::new(
        2 * bytes.len(),
        |i: int|
            if i % 2 == 0 {
                hex_digit(bytes[i / 2] as int / 16)
            } else {
                hex_digit(bytes[i / 2] as int % 16)
            },
    )
}

/// The hyphenated form of a UUID: its digits in groups of 8, 4, 4, 4 and 12.
pub open spec fn hyphenated(bytes: Seq<u8>) -> Seq<char> {
    let digits = hex_text(bytes);
    digits.subrange(0, 8) + seq!['-'] + digits.subrange(8, 12) + seq!['-'] + digits.subrange(12, 16)
        + seq!['-'] + digits.subrange(16, 20) + seq!['-'] + digits.subrange(20, 32)
}

/// A text without its hyphens.
pub open spec fn without_hyphens(text: Seq<char>) -> Seq<char> {
    text.filter(|c: char| c != '-')
}

/// Whether these are the bytes of a random (version 4) UUID.
pub open spec fn is_random_uuid(bytes: Seq<u8>) -> bool {
    &&& bytes.len() == 16
    &&& bytes[6] / 16 == 4
    &&& bytes[8] / 64 == 2
}

/// Whether every byte is zero.
pub open spec fn is_zero(bytes: Seq<u8>) -> bool {
    forall|i: int| 0 <= i < bytes.len() ==> #[trigger] bytes[i] == 0
}

/// `Uuid::new_v4`: the bytes of a random UUID.
///
/// Which bytes these are is up to the operating system's random numbers. Only
/// the version and the variant are the same every time.
#[verifier::external_body]
pub(crate) fn random_uuid() -> (bytes: [u8; 16])
    ensures
        is_random_uuid(bytes@),
{
    Uuid::new_v4().into_bytes()
}

/// Whether these are bytes that a draw of a random UUID came out with.
///
/// That bytes look like a random UUID is not enough: only what was in fact drawn
/// is known to have been.
pub closed spec fn is_drawn(bytes: Seq<u8>) -> bool {
    exists|drawn: [u8; 16]| #[trigger] call_ensures(random_uuid, (), drawn) && drawn@ == bytes
}

/// What a draw came out with is drawn.
pub(crate) proof fn lemma_outcome_is_drawn(drawn: [u8; 16])
    requires
        call_ensures(random_uuid, (), drawn),
    ensures
        is_drawn(drawn@),
{
}

/// Nothing else is drawn: drawn bytes are the outcome of a call of
/// `random_uuid`.
pub(crate) proof fn law_drawn_bytes_are_an_outcome(bytes: Seq<u8>)
    requires
        is_drawn(bytes),
    ensures
        exists|drawn: [u8; 16]| #[trigger] call_ensures(random_uuid, (), drawn) && drawn@ == bytes,
{
}

/// Drawn bytes are those of a version 4 UUID in the usual variant.
pub proof fn law_drawn_bytes_are_a_random_uuid(bytes: Seq<u8>)
    requires
        is_drawn(bytes),
    ensures
        is_random_uuid(bytes),
        bytes.len() == 16,
        0x40 <= bytes[6] <= 0x4f,
        0x80 <= bytes[8] <= 0xbf,
{
}

/// `Hyphenated::encode_lower`: the hyphenated form of a UUID, with lower-case
/// digits.
#[verifier::external_body]
pub(crate) fn uuid_to_text(bytes: &[u8; 16]) -> (text: String)
    ensures
        text@ == hyphenated(bytes@),
{
    let mut buf = Uuid::encode_buffer();
    Uuid::from_bytes(*bytes).hyphenated().encode_lower(&mut buf).to_owned()
}

/// The hyphenated form is 36 characters of visible ASCII, and a header value.
pub proof fn lemma_hyphenated_is_visible(bytes: Seq<u8>)
    requires
        bytes.len() == 16,
    ensures
        hyphenated(bytes).len() == 36,
        forall|i: int| 0 <= i < 36 ==> '!' <= #[trigger] hyphenated(bytes)[i] <= '~',
        is_ascii_chars(hyphenated(bytes)),
        valid_header_value(ascii_bytes(hyphenated(bytes))),
{
}

/// Filtering by what holds of every item changes nothing.
proof fn lemma_filter_keeps_all(s: Seq<char>, keep: spec_fn(char) -> bool)
    requires
        forall|i: int| 0 <= i < s.len() ==> keep(#[trigger] s[i]),
    ensures
        s.filter(keep) == s,
    decreases s.len(),
{
    reveal(Seq::filter);
    if s.len() > 0 {
        lemma_filter_keeps_all(s.drop_last(), keep);
        assert(s.drop_last().push(s.last()) =~= s);
    }
}

/// The hyphenated form, without its hyphens, is the plain row of digits.
pub proof fn law_hyphens_drop_to_hex(bytes: Seq<u8>)
    requires
        bytes.len() == 16,
    ensures
        without_hyphens(hyphenated(bytes)) == hex_text(bytes),
{
    let digits = hex_text(bytes);
    let keep = |c: char| c != '-';
    let hyphen = seq!['-'];
    let g1 = digits.subrange(0, 8);
    let g2 = digits.subrange(8, 12);
    let g3 = digits.subrange(12, 16);
    let g4 = digits.subrange(16, 20);
    let g5 = digits.subrange(20, 32);
    assert(hyphen.filter(keep) =~= Seq::<char>::empty()) by {
        reveal_with_fuel(Seq::filter, 2);
    }
    lemma_filter_keeps_all(g1, keep);
    lemma_filter_keeps_all(g2, keep);
    lemma_filter_keeps_all(g3, keep);
    lemma_filter_keeps_all(g4, keep);
    lemma_filter_keeps_all(g5, keep);
    Seq::filter_distributes_over_add(g1, hyphen, keep);
    Seq::filter_distributes_over_add(g1 + hyphen, g2, keep);
    Seq::filter_distributes_over_add(g1 + hyphen + g2, hyphen, keep);
    Seq::filter_distributes_over_add(g1 + hyphen + g2 + hyphen, g3, keep);
    Seq::filter_distributes_over_add(g1 + hyphen + g2 + hyphen + g3, hyphen, keep);
    Seq::filter_distributes_over_add(g1 + hyphen + g2 + hyphen + g3 + hyphen, g4, keep);
    Seq::filter_distributes_over_add(g1 + hyphen + g2 + hyphen + g3 + hyphen + g4, hyphen, keep);
    Seq::filter_distributes_over_add(
        g1 + hyphen + g2 + hyphen + g3 + hyphen + g4 + hyphen,
        g5,
        keep,
    );
    assert(g1 + g2 + g3 + g4 + g5 =~= digits);
}

/// Different UUIDs have different hyphenated forms.
pub proof fn law_hyphenated_is_injective(a: Seq<u8>, b: Seq<u8>)
    requires
        a.len() == 16,
        b.len() == 16,
        hyphenated(a) == hyphenated(b),
    ensures
        a == b,
{
    law_hyphens_drop_to_hex(a);
    law_hyphens_drop_to_hex(b);
    assert forall|k: int| 0 <= k < 16 implies a[k] == b[k] by {
        assert(hex_text(a)[2 * k] == hex_text(b)[2 * k]);
        assert(hex_text(a)[2 * k + 1] == hex_text(b)[2 * k + 1]);
    }
    assert(a =~= b);
}

/// A random UUID has a byte that is not zero.
pub proof fn lemma_random_is_not_zero(bytes: Seq<u8>)
    requires
        is_random_uuid(bytes),
    ensures
        !is_zero(bytes),
{
    assert(bytes[6] != 0);
}

/// The digits of a byte string read back as its bytes, two digits to a byte.
pub proof fn law_hex_digits_read_back(bytes: Seq<u8>, k: int)
    requires
        0 <= k < bytes.len(),
    ensures
        hex_text(bytes).len() == 2 * bytes.len(),
        ({
            let high = hex_text(bytes)[2 * k];
            let low = hex_text(bytes)[2 * k + 1];
            &&& ('0' <= high <= '9' && high as int - '0' as int == bytes[k] / 16) || ('a' <= high
                <= 'f' && high as int - 'a' as int + 10 == bytes[k] / 16)
            &&& ('0' <= low <= '9' && low as int - '0' as int == bytes[k] % 16) || ('a' <= low
                <= 'f' && low as int - 'a' as int + 10 == bytes[k] % 16)
        }),
{
    assert((2 * k) / 2 == k && (2 * k + 1) / 2 == k);
}

/// The hyphenated form reads back as the bytes, two digits to a byte, with
/// hyphens behind the fourth, sixth, eighth and tenth byte.
pub proof fn law_hyphenated_reads_back(bytes: Seq<u8>, k: int)
    requires
        bytes.len() == 16,
        0 <= k < 16,
    ensures
        ({
            let text = hyphenated(bytes);
            let at = 2 * k + if k < 4 {
                0int
            } else if k < 6 {
                1
            } else if k < 8 {
                2
            } else if k < 10 {
                3
            } else {
                4
            };
            let high = text[at];
            let low = text[at + 1];
            &&& text.len() == 36
            &&& text[8] == '-' && text[13] == '-' && text[18] == '-' && text[23] == '-'
            &&& ('0' <= high <= '9' && high as int - '0' as int == bytes[k] / 16) || ('a' <= high
                <= 'f' && high as int - 'a' as int + 10 == bytes[k] / 16)
            &&& ('0' <= low <= '9' && low as int - '0' as int == bytes[k] % 16) || ('a' <= low
                <= 'f' && low as int - 'a' as int + 10 == bytes[k] % 16)
        }),
{
    law_hex_digits_read_back(bytes, k);
}

} // verus!
