//! Byte strings that hold ASCII text.
use vstd::prelude::*;
use vstd::utf8::*;
use vstd::string::*;

verus! {

/// The text whose characters are the given ASCII bytes.
pub open spec fn ascii_text(bytes: Seq<u8>) -> Seq<char> {
    Seq::new(bytes.len(), |i: int| bytes[i] as char)
}

/// The bytes of an ASCII text, one for each character.
pub open spec fn ascii_bytes(text: Seq<char>) -> Seq<u8> {
    Seq::new(text.len(), |i: int| text[i] as u8)
}

/// Reading ASCII bytes as text and writing that text back gives the same bytes.
pub proof fn lemma_text_of_bytes(bytes: Seq<u8>)
    requires
        forall|i: int| 0 <= i < bytes.len() ==> bytes[i] < 128,
    ensures
        ascii_bytes(ascii_text(bytes)) == bytes,
        is_ascii_chars(ascii_text(bytes)),
{
    assert(ascii_bytes(ascii_text(bytes)) =~= bytes);
}

/// Writing ASCII text as bytes and reading those back gives the same text.
pub proof fn lemma_bytes_of_text(text: Seq<char>)
    requires
        is_ascii_chars(text),
    ensures
        ascii_text(ascii_bytes(text)) == text,
        encode_utf8(text) == ascii_bytes(text),
{
    is_ascii_chars_encode_utf8(text);
    assert(ascii_text(ascii_bytes(text)) =~= text);
    assert(encode_utf8(text) =~= ascii_bytes(text));
}

/// Bytes below 128 and the characters of their text have the same codes, one for
/// one; so have the characters of an ASCII text and its bytes.
pub proof fn law_ascii_keeps_codes(bytes: Seq<u8>, text: Seq<char>, i: int)
    ensures
        ascii_text(bytes).len() == bytes.len(),
        ascii_bytes(text).len() == text.len(),
        0 <= i < bytes.len() && bytes[i] < 0x80 ==> ascii_text(bytes)[i] as int == bytes[i] as int,
        0 <= i < text.len() && 0 <= text[i] as int <= 0x7f ==> ascii_bytes(text)[i] as int
            == text[i] as int,
{
    if 0 <= i < text.len() {
        let c = text[i];
        assert(0 <= c as int <= 0x7f ==> (c as u8) as int == c as int);
    }
}

} // verus!
