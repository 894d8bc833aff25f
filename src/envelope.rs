//! The envelope: `version:lockdate:cipher[:hint][:filename]`, each field
//! after the version being base64. A version's envelope is the one of the
//! version below with its tag replaced and one field appended.

use vstd::prelude::*;
use vstd::utf8::*;
use crate::encoding::{
    base64_of, base64_decoded, decode_base64, encode_base64, utf8_to_string, lemma_base64_bytes,
};
use crate::fields::{SEPARATOR, split_fields, join_fields, separator_free, lemma_split_join};
use crate::lockdate::{Lockdate, lockdate_text, parsed_lockdate};
use crate::text::{is_ascii_bytes, ascii_chars, lemma_ascii_utf8};
use crate::version::ClientVersion;

verus! {

/// The fields of the envelope of `version` for a lockdate text, cipher bytes,
/// hint and filename. Version 1 has no hint and no filename field, version 2
/// no filename field.
pub open spec fn envelope_fields(
    version: ClientVersion,
    lockdate: Seq<char>,
    cipher: Seq<u8>,
    hint: Seq<char>,
    filename: Seq<char>,
) -> Seq<Seq<u8>> {
    let base = seq![version.tag(), base64_of(encode_utf8(lockdate)), base64_of(cipher)];
    match version {
        ClientVersion::V1 => base,
        ClientVersion::V2 => base.push(base64_of(encode_utf8(hint))),
        ClientVersion::V3 => base.push(base64_of(encode_utf8(hint))).push(
            base64_of(encode_utf8(filename)),
        ),
    }
}

/// The bytes of an envelope.
pub open spec fn envelope_bytes(
    version: ClientVersion,
    lockdate: Lockdate,
    cipher: Seq<u8>,
    hint: Seq<char>,
    filename: Seq<char>,
) -> Seq<u8> {
    join_fields(envelope_fields(version, lockdate_text(lockdate), cipher, hint, filename))
}

/// What parsing an envelope gives: its lockdate, cipher bytes, hint and
/// filename; or a refusal with its message and the hint and filename decoded
/// before it.
pub enum EnvelopeView {
    Parsed { lockdate: Lockdate, cipher: Seq<u8>, hint: Seq<char>, filename: Seq<char> },
    Rejected { message: Seq<char>, hint: Seq<char>, filename: Seq<char> },
}

/// A format error message: `Cipher is invalid. ` and what is wrong.
pub open spec fn invalid(what: Seq<char>) -> Seq<char> {
    "Cipher is invalid. "@ + what
}

/// The error message for an envelope with the wrong number of fields.
pub open spec fn count_message(version: ClientVersion) -> Seq<char> {
    match version {
        ClientVersion::V1 => invalid("It must consist of 3 components separted by a colon."@),
        ClientVersion::V2 => invalid("It must consist of 4 components separted by a colon."@),
        ClientVersion::V3 => invalid("It must consist of 5 components separted by a colon."@),
    }
}

/// The error message for an envelope with another version's tag.
pub open spec fn tag_message(version: ClientVersion) -> Seq<char> {
    match version {
        ClientVersion::V1 => invalid("It is not a version 1 cipher."@),
        ClientVersion::V2 => invalid("It is not a version 2 cipher."@),
        ClientVersion::V3 => invalid("It is not a version 3 cipher."@),
    }
}

/// Format error messages are never empty.
pub proof fn lemma_invalid_nonempty(what: Seq<char>)
    ensures
        invalid(what).len() > 0,
{
    reveal_strlit("Cipher is invalid. ");
}

/// The text that a field holds: base64 of UTF-8.
pub open spec fn decoded_text(field: Seq<u8>) -> Option<Seq<char>> {
    match base64_decoded(field) {
        Some(b) => if valid_utf8(b) {
            Some(decode_utf8(b))
        } else {
            None
        },
        None => None,
    }
}

/// Parsing the lockdate and cipher fields of version 1, with no hint and no
/// filename.
pub open spec fn parse_core(lockdate_field: Seq<u8>, cipher_field: Seq<u8>) -> EnvelopeView {
    let e = Seq::<char>::empty();
    match decoded_text(lockdate_field) {
        Some(t) => match parsed_lockdate(t) {
            Some(d) => match base64_decoded(cipher_field) {
                Some(c) => EnvelopeView::Parsed { lockdate: d, cipher: c, hint: e, filename: e },
                None => EnvelopeView::Rejected {
                    message: invalid("Its cipher is not base64."@),
                    hint: e,
                    filename: e,
                },
            },
            None => EnvelopeView::Rejected {
                message: invalid("Its lockdate cannot be read."@),
                hint: e,
                filename: e,
            },
        },
        None => EnvelopeView::Rejected {
            message: invalid("Its lockdate is not base64 of UTF-8 text."@),
            hint: e,
            filename: e,
        },
    }
}

/// The refusal for the wrong number of fields or the wrong tag, if either.
pub open spec fn shape_refusal(version: ClientVersion, fs: Seq<Seq<u8>>) -> Option<Seq<char>> {
    if fs.len() != version.field_count() {
        Some(count_message(version))
    } else if fs[0] != version.tag() {
        Some(tag_message(version))
    } else {
        None
    }
}

/// Parsing a version 1 envelope: three fields, the first its tag.
pub open spec fn parse_v1(env: Seq<u8>) -> EnvelopeView {
    let fs = split_fields(env);
    let e = Seq::<char>::empty();
    match shape_refusal(ClientVersion::V1, fs) {
        Some(m) => EnvelopeView::Rejected { message: m, hint: e, filename: e },
        None => parse_core(fs[1], fs[2]),
    }
}

/// Parsing a version 2 envelope: four fields, the first its tag. The hint is
/// decoded first; the rest is the version 1 envelope of the second and third
/// fields, whose refusal keeps its message.
pub open spec fn parse_v2(env: Seq<u8>) -> EnvelopeView {
    let fs = split_fields(env);
    let e = Seq::<char>::empty();
    match shape_refusal(ClientVersion::V2, fs) {
        Some(m) => EnvelopeView::Rejected { message: m, hint: e, filename: e },
        None => match decoded_text(fs[3]) {
            None => EnvelopeView::Rejected {
                message: invalid("Its hint is not base64 of UTF-8 text."@),
                hint: e,
                filename: e,
            },
            Some(h) => match parse_v1(join_fields(seq![ClientVersion::V1.tag(), fs[1], fs[2]])) {
                EnvelopeView::Parsed { lockdate, cipher, .. } => EnvelopeView::Parsed {
                    lockdate,
                    cipher,
                    hint: h,
                    filename: e,
                },
                EnvelopeView::Rejected { message, .. } => EnvelopeView::Rejected {
                    message,
                    hint: h,
                    filename: e,
                },
            },
        },
    }
}

/// Parsing a version 3 envelope: five fields, the first its tag. The hint is
/// decoded first, then the filename; the rest is the version 2 envelope of
/// the second to fourth fields, whose refusal keeps its message.
pub open spec fn parse_v3(env: Seq<u8>) -> EnvelopeView {
    let fs = split_fields(env);
    let e = Seq::<char>::empty();
    match shape_refusal(ClientVersion::V3, fs) {
        Some(m) => EnvelopeView::Rejected { message: m, hint: e, filename: e },
        None => match decoded_text(fs[3]) {
            None => EnvelopeView::Rejected {
                message: invalid("Its hint is not base64 of UTF-8 text."@),
                hint: e,
                filename: e,
            },
            Some(h) => match decoded_text(fs[4]) {
                None => EnvelopeView::Rejected {
                    message: invalid("Its filename is not base64 of UTF-8 text."@),
                    hint: h,
                    filename: e,
                },
                Some(f) => match parse_v2(
                    join_fields(seq![ClientVersion::V2.tag(), fs[1], fs[2], fs[3]]),
                ) {
                    EnvelopeView::Parsed { lockdate, cipher, hint, .. } => EnvelopeView::Parsed {
                        lockdate,
                        cipher,
                        hint,
                        filename: f,
                    },
                    EnvelopeView::Rejected { message, hint, .. } => EnvelopeView::Rejected {
                        message,
                        hint,
                        filename: f,
                    },
                },
            },
        },
    }
}

/// Parsing an envelope of `version`.
pub open spec fn parse_envelope(version: ClientVersion, env: Seq<u8>) -> EnvelopeView {
    match version {
        ClientVersion::V1 => parse_v1(env),
        ClientVersion::V2 => parse_v2(env),
        ClientVersion::V3 => parse_v3(env),
    }
}

/// The fields of an envelope hold no separator, and are ASCII.
pub proof fn lemma_envelope_fields(
    version: ClientVersion,
    lockdate: Seq<char>,
    cipher: Seq<u8>,
    hint: Seq<char>,
    filename: Seq<char>,
)
    ensures
        separator_free(envelope_fields(version, lockdate, cipher, hint, filename)),
        forall|i: int|
            0 <= i < envelope_fields(version, lockdate, cipher, hint, filename).len()
                ==> is_ascii_bytes(
                #[trigger] envelope_fields(version, lockdate, cipher, hint, filename)[i],
            ),
        envelope_fields(version, lockdate, cipher, hint, filename).len() == version.field_count(),
{
    let fs = envelope_fields(version, lockdate, cipher, hint, filename);
    lemma_base64_bytes(encode_utf8(lockdate));
    lemma_base64_bytes(cipher);
    lemma_base64_bytes(encode_utf8(hint));
    lemma_base64_bytes(encode_utf8(filename));
    assert(!version.tag().contains(SEPARATOR)) by {
        assert(version.tag().len() == 1);
        assert(version.tag()[0] != SEPARATOR);
    }
    assert(is_ascii_bytes(version.tag()));
}

/// Joined ASCII fields are ASCII.
pub proof fn lemma_join_ascii(fs: Seq<Seq<u8>>)
    requires
        forall|i: int| 0 <= i < fs.len() ==> is_ascii_bytes(#[trigger] fs[i]),
    ensures
        is_ascii_bytes(join_fields(fs)),
    decreases fs.len(),
{
    if fs.len() > 1 {
        let init = fs.drop_last();
        assert forall|i: int| 0 <= i < init.len() implies is_ascii_bytes(#[trigger] init[i]) by {
            assert(init[i] == fs[i]);
        }
        lemma_join_ascii(init);
        assert(is_ascii_bytes(fs[fs.len() - 1]));
        let j = join_fields(fs);
        assert forall|k: int| 0 <= k < j.len() implies #[trigger] j[k] < 128 by {
            let a = join_fields(init);
            if k < a.len() {
                assert(j[k] == a[k]);
            } else if k > a.len() {
                assert(j[k] == fs.last()[k - a.len() - 1]);
            }
        }
    } else if fs.len() == 1 {
        assert(is_ascii_bytes(fs[0]));
    }
}

/// Splitting an envelope gives back its fields.
pub proof fn lemma_split_envelope(
    version: ClientVersion,
    lockdate: Seq<char>,
    cipher: Seq<u8>,
    hint: Seq<char>,
    filename: Seq<char>,
)
    ensures
        split_fields(join_fields(envelope_fields(version, lockdate, cipher, hint, filename)))
            == envelope_fields(version, lockdate, cipher, hint, filename),
        is_ascii_bytes(join_fields(envelope_fields(version, lockdate, cipher, hint, filename))),
{
    lemma_envelope_fields(version, lockdate, cipher, hint, filename);
    lemma_split_join(envelope_fields(version, lockdate, cipher, hint, filename));
    lemma_join_ascii(envelope_fields(version, lockdate, cipher, hint, filename));
}

/// Splitting the bytes of an envelope gives back its fields.
pub broadcast proof fn lemma_envelope_split(
    version: ClientVersion,
    lockdate: Lockdate,
    cipher: Seq<u8>,
    hint: Seq<char>,
    filename: Seq<char>,
)
    ensures
        #[trigger] split_fields(envelope_bytes(version, lockdate, cipher, hint, filename))
            == envelope_fields(version, lockdate_text(lockdate), cipher, hint, filename),
        is_ascii_bytes(envelope_bytes(version, lockdate, cipher, hint, filename)),
{
    lemma_split_envelope(version, lockdate_text(lockdate), cipher, hint, filename);
}

/// An envelope taken apart: what a client needs to open it.
pub struct ParsedEnvelope {
    pub lockdate: Lockdate,
    pub cipher: Vec<u8>,
    pub hint: String,
    pub filename: String,
}

/// The text that a field holds, if it is base64 of UTF-8 text.
pub fn decode_text_field(field: &[u8]) -> (r: Option<String>)
    ensures
        r is None ==> decoded_text(field@) is None,
        r matches Some(s) ==> decoded_text(field@) == Some(s@),
        forall|t: Seq<char>| #[trigger] base64_of(encode_utf8(t)) == field@ ==> r.is_some() && r.unwrap()@ == t,
{
    match decode_base64(field) {
        Some(b) => {
            let ghost bv = b@;
            let r = utf8_to_string(b);
            proof {
                assert forall|t: Seq<char>| #[trigger] base64_of(encode_utf8(t)) == field@
                    implies r.is_some() && r.unwrap()@ == t by {
                    assert(bv == encode_utf8(t));
                    encode_utf8_valid_utf8(t);
                    encode_utf8_decode_utf8(t);
                }
            }
            r
        },
        None => None,
    }
}

/// The fields written one after the other, with a separator between each two.
pub fn join_at_separators(fs: &Vec<&[u8]>) -> (r: Vec<u8>)
    ensures
        r@ == join_fields(Seq::new(fs@.len(), |i: int| fs@[i]@)),
{
    let ghost views = Seq::new(fs@.len(), |i: int| fs@[i]@);
    let mut r: Vec<u8> = Vec::new();
    let mut i: usize = 0;
    while i < fs.len()
        invariant
            i <= fs@.len(),
            views == Seq::new(fs@.len(), |i: int| fs@[i]@),
            r@ == join_fields(views.take(i as int)),
        decreases fs@.len() - i,
    {
        let f: &[u8] = fs[i];
        let ghost before = r@;
        if i > 0 {
            r.push(SEPARATOR);
        }
        let mut j: usize = 0;
        while j < f.len()
            invariant
                j <= f@.len(),
                r@ == (if i > 0 {
                    before.push(SEPARATOR)
                } else {
                    before
                }) + f@.take(j as int),
            decreases f@.len() - j,
        {
            r.push(f[j]);
            j = j + 1;
            assert(r@ =~= (if i > 0 {
                before.push(SEPARATOR)
            } else {
                before
            }) + f@.take(j as int));
        }
        proof {
            let t = views.take(i + 1);
            assert(t.drop_last() =~= views.take(i as int));
            assert(t.last() == f@);
            assert(f@.take(f@.len() as int) =~= f@);
            if i == 0 {
                assert(join_fields(views.take(0)) == Seq::<u8>::empty());
                assert(r@ =~= join_fields(t));
            } else {
                assert(r@ =~= join_fields(t));
            }
        }
        i = i + 1;
    }
    assert(views.take(fs@.len() as int) =~= views);
    r
}

/// The envelope of `version` for a lockdate, cipher bytes, hint and
/// filename: the tag, then base64 of each field that the version has, joined
/// by colons.
pub fn seal(
    version: ClientVersion,
    lockdate: &Lockdate,
    cipher: &[u8],
    hint: &str,
    filename: &str,
) -> (r: String)
    requires
        lockdate.wf(),
    ensures
        r@ == ascii_chars(envelope_bytes(version, *lockdate, cipher@, hint@, filename@)),
{
    let mut tag: Vec<u8> = Vec::new();
    match version {
        ClientVersion::V1 => tag.push(49u8),
        ClientVersion::V2 => tag.push(50u8),
        ClientVersion::V3 => tag.push(51u8),
    }
    let text = lockdate.to_text();
    let lockdate_b64 = encode_base64(text.as_str().as_bytes());
    let cipher_b64 = encode_base64(cipher);
    let hint_b64 = encode_base64(hint.as_bytes());
    let filename_b64 = encode_base64(filename.as_bytes());
    let mut parts: Vec<&[u8]> = Vec::new();
    parts.push(tag.as_slice());
    parts.push(lockdate_b64.as_slice());
    parts.push(cipher_b64.as_slice());
    match version {
        ClientVersion::V1 => {},
        ClientVersion::V2 => {
            parts.push(hint_b64.as_slice());
        },
        ClientVersion::V3 => {
            parts.push(hint_b64.as_slice());
            parts.push(filename_b64.as_slice());
        },
    }
    let joined = join_at_separators(&parts);
    let ghost fields = envelope_fields(version, lockdate_text(*lockdate), cipher@, hint@, filename@);
    proof {
        assert(tag@ =~= version.tag());
        assert(Seq::new(parts@.len(), |i: int| parts@[i]@) =~= fields);
        lemma_split_envelope(version, lockdate_text(*lockdate), cipher@, hint@, filename@);
        lemma_ascii_utf8(joined@);
    }
    match utf8_to_string(joined) {
        Some(s) => s,
        None => String::new(),
    }
}

} // verus!
