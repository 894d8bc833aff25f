//! Facts about ASCII text and its UTF-8 encoding.

use vstd::prelude::*;
use vstd::utf8::*;

verus! {

/// Every byte is an ASCII character.
pub open spec fn is_ascii_bytes(b: Seq<u8>) -> bool {
    forall|i: int| 0 <= i < b.len() ==> #[trigger] b[i] < 128
}

/// The characters that ASCII bytes stand for.
pub open spec fn ascii_chars(b: Seq<u8>) -> Seq<char> {
    Seq::new(b.len(), |i: int| b[i] as char)
}

/// ASCII bytes are valid UTF-8, and decode to one character each.
pub proof fn lemma_ascii_utf8(b: Seq<u8>)
    requires
        is_ascii_bytes(b),
    ensures
        valid_utf8(b),
        decode_utf8(b) == ascii_chars(b),
        encode_utf8(ascii_chars(b)) == b,
{
    let c = ascii_chars(b);
    assert(is_ascii_chars(c));
    is_ascii_chars_encode_utf8(c);
    assert(encode_utf8(c) =~= b);
    encode_utf8_valid_utf8(c);
    encode_utf8_decode_utf8(c);
}

/// The UTF-8 encoding of ASCII characters is one byte each.
pub proof fn lemma_ascii_chars_encode(c: Seq<char>)
    requires
        is_ascii_chars(c),
    ensures
        encode_utf8(c) == Seq::new(c.len(), |i: int| c[i] as u8),
        is_ascii_bytes(encode_utf8(c)),
{
    is_ascii_chars_encode_utf8(c);
    assert(encode_utf8(c) =~= Seq::new(c.len(), |i: int| c[i] as u8));
}

} // verus!
