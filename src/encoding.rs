//! Base64 (standard alphabet, padded) and UTF-8, the two encodings that
//! envelope fields are written in.

use vstd::prelude::*;
use vstd::utf8::*;
use crate::fields::SEPARATOR;
use crate::text::is_ascii_bytes;

verus! {

/// The padding byte (`=`).
pub const PAD: u8 = 61;

/// The base64 digit for a six-bit value `v`: `A`-`Z`, `a`-`z`, `0`-`9`, `+`, `/`.
pub open spec fn b64_digit(v: int) -> u8 {
    if v < 26 {
        (65 + v) as u8
    } else if v < 52 {
        (97 + v - 26) as u8
    } else if v < 62 {
        (48 + v - 52) as u8
    } else if v == 62 {
        43u8
    } else {
        47u8
    }
}

/// Base64 of `b` with the standard alphabet: each three bytes become four
/// digits, and a last group of one or two bytes is padded to four.
pub open spec fn base64_of(b: Seq<u8>) -> Seq<u8>
    decreases b.len(),
{
    if b.len() == 0 {
        Seq::empty()
    } else if b.len() == 1 {
        let x = b[0] as int;
        seq![b64_digit(x / 4), b64_digit((x % 4) * 16), PAD, PAD]
    } else if b.len() == 2 {
        let x = b[0] as int;
        let y = b[1] as int;
        seq![b64_digit(x / 4), b64_digit((x % 4) * 16 + y / 16), b64_digit((y % 16) * 4), PAD]
    } else {
        let x = b[0] as int;
        let y = b[1] as int;
        let z = b[2] as int;
        seq![
            b64_digit(x / 4),
            b64_digit((x % 4) * 16 + y / 16),
            b64_digit((y % 16) * 4 + z / 64),
            b64_digit(z % 64),
        ] + base64_of(b.skip(3))
    }
}

/// A byte that can stand in base64 text.
pub open spec fn is_base64_byte(c: u8) -> bool {
    (65 <= c <= 90) || (97 <= c <= 122) || (48 <= c <= 57) || c == 43 || c == 47 || c == PAD
}

/// What `base64::decode` makes of `s`: bytes, or nothing where it refuses `s`.
pub uninterp spec fn base64_decoded(s: Seq<u8>) -> Option<Seq<u8>>;

proof fn lemma_digit(v: int)
    requires
        0 <= v < 64,
    ensures
        is_base64_byte(b64_digit(v)),
{
}

/// Base64 text is ASCII and holds no separator.
pub proof fn lemma_base64_bytes(b: Seq<u8>)
    ensures
        is_ascii_bytes(base64_of(b)),
        !base64_of(b).contains(SEPARATOR),
        forall|i: int| 0 <= i < base64_of(b).len() ==> is_base64_byte(#[trigger] base64_of(b)[i]),
    decreases b.len(),
{
    let e = base64_of(b);
    if b.len() >= 1 {
        let x = b[0] as int;
        lemma_digit(x / 4);
        lemma_digit((x % 4) * 16);
        if b.len() >= 2 {
            let y = b[1] as int;
            lemma_digit((x % 4) * 16 + y / 16);
            lemma_digit((y % 16) * 4);
            if b.len() >= 3 {
                let z = b[2] as int;
                lemma_digit((y % 16) * 4 + z / 64);
                lemma_digit(z % 64);
                lemma_base64_bytes(b.skip(3));
            }
        }
    }
    assert forall|i: int| 0 <= i < e.len() implies is_base64_byte(#[trigger] e[i]) by {
        if b.len() >= 3 && i >= 4 {
            assert(e[i] == base64_of(b.skip(3))[i - 4]);
        }
    }
    assert(!e.contains(SEPARATOR)) by {
        if e.contains(SEPARATOR) {
            let k = choose|k: int| 0 <= k < e.len() && e[k] == SEPARATOR;
            assert(is_base64_byte(e[k]));
        }
    }
    assert(is_ascii_bytes(e)) by {
        assert forall|i: int| 0 <= i < e.len() implies #[trigger] e[i] < 128 by {
            assert(is_base64_byte(e[i]));
        }
    }
}

/// Relies on `base64::encode`: standard alphabet, padded (its `STANDARD`
/// configuration).
#[verifier::external_body]
pub(crate) fn encode_base64(b: &[u8]) -> (r: Vec<u8>)
    ensures
        r@ == base64_of(b@),
{
    base64::encode(b).into_bytes()
}

/// Relies on `base64::decode`: the outcome depends on the input alone, and the
/// base64 of any bytes decodes back to those bytes.
#[verifier::external_body]
pub(crate) fn decode_base64(s: &[u8]) -> (r: Option<Vec<u8>>)
    ensures
        r is None ==> base64_decoded(s@) is None,
        r matches Some(v) ==> base64_decoded(s@) == Some(v@),
        forall|x: Seq<u8>| #[trigger] base64_of(x) == s@ ==> r.is_some() && r.unwrap()@ == x,
{
    base64::decode(s).ok()
}

/// Relies on `String::from_utf8`: it succeeds exactly on valid UTF-8, and
/// then holds the characters that the bytes encode.
#[verifier::external_body]
pub(crate) fn utf8_to_string(b: Vec<u8>) -> (r: Option<String>)
    ensures
        r is Some <==> valid_utf8(b@),
        r matches Some(s) ==> s@ == decode_utf8(b@),
{
    String::from_utf8(b).ok()
}

} // verus!
