//! Envelope versions, and telling an envelope's version from its first field.

use vstd::prelude::*;
use vstd::utf8::*;
use vstd::string::StringSliceAdditionalSpecFns;
use crate::fields::{SEPARATOR, split_fields, lemma_first_field};
use crate::text::{ascii_chars, lemma_ascii_chars_encode};

verus! {

/// The versions of the envelope format. A higher version is the lower one
/// with one more field at its end.
#[derive(Debug, PartialEq, Eq, Structural, Clone, Copy)]
pub enum ClientVersion {
    V1,
    V2,
    V3,
}

impl ClientVersion {
    /// The first field of an envelope of this version: its number as one
    /// ASCII digit.
    pub open spec fn tag(self) -> Seq<u8> {
        match self {
            ClientVersion::V1 => seq![49u8],
            ClientVersion::V2 => seq![50u8],
            ClientVersion::V3 => seq![51u8],
        }
    }

    /// The number of fields in an envelope of this version.
    pub open spec fn field_count(self) -> nat {
        match self {
            ClientVersion::V1 => 3,
            ClientVersion::V2 => 4,
            ClientVersion::V3 => 5,
        }
    }

    /// The version number as text.
    pub fn to_string(&self) -> (r: String)
        ensures
            encode_utf8(r@) == self.tag(),
            r@ == ascii_chars(self.tag()),
    {
        let r = match self {
            ClientVersion::V1 => String::from_str("1"),
            ClientVersion::V2 => String::from_str("2"),
            ClientVersion::V3 => String::from_str("3"),
        };
        proof {
            reveal_strlit("1");
            reveal_strlit("2");
            reveal_strlit("3");
            assert(is_ascii_chars(r@));
            lemma_ascii_chars_encode(r@);
            assert(encode_utf8(r@) =~= self.tag());
            assert(r@ =~= ascii_chars(self.tag()));
        }
        r
    }
}

/// The version whose tag is `tag`, if any.
pub open spec fn version_from_tag(tag: Seq<u8>) -> Option<ClientVersion> {
    if tag == ClientVersion::V1.tag() {
        Some(ClientVersion::V1)
    } else if tag == ClientVersion::V2.tag() {
        Some(ClientVersion::V2)
    } else if tag == ClientVersion::V3.tag() {
        Some(ClientVersion::V3)
    } else {
        None
    }
}

/// The error for a tag that names no version.
pub open spec fn unknown_version_message(tag: Seq<char>) -> Seq<char> {
    "Unknown client version: "@ + tag
}

/// A version, or an error message, as seen in specifications.
pub open spec fn version_result_view(r: Result<ClientVersion, String>) -> Result<
    ClientVersion,
    Seq<char>,
> {
    match r {
        Ok(v) => Ok(v),
        Err(m) => Err(m@),
    }
}

/// What the tag `tag` says: its version, or an error that quotes it.
pub open spec fn tag_version(tag: Seq<char>) -> Result<ClientVersion, Seq<char>> {
    match version_from_tag(encode_utf8(tag)) {
        Some(v) => Ok(v),
        None => Err(unknown_version_message(tag)),
    }
}

/// The version of the envelope whose text is `env`: what its first field says.
/// Nothing else of the envelope is looked at.
pub open spec fn analyzed_version(env: Seq<char>) -> Result<ClientVersion, Seq<char>> {
    tag_version(decode_utf8(split_fields(encode_utf8(env))[0]))
}

/// Tells which version of the envelope format produced an envelope.
pub trait Analyzer {
    /// The version named by the first field of `ciphertext`.
    fn get_version(&self, ciphertext: &str) -> (r: Result<ClientVersion, String>)
        ensures
            version_result_view(r) == analyzed_version(ciphertext@),
    ;

    /// The version named by `client_version`.
    fn str_to_version(&self, client_version: &str) -> (r: Result<ClientVersion, String>)
        ensures
            version_result_view(r) == tag_version(client_version@),
    ;
}

/// The analyzer of this library.
#[derive(Clone, Copy)]
pub struct DefaultAnalyzer {}

impl DefaultAnalyzer {
    pub fn new() -> (r: DefaultAnalyzer) {
        DefaultAnalyzer {}
    }
}

impl Analyzer for DefaultAnalyzer {
    fn get_version(&self, ciphertext: &str) -> (r: Result<ClientVersion, String>) {
        let b = ciphertext.as_bytes();
        let mut i: usize = 0;
        while i < b.len() && b[i] != SEPARATOR
            invariant
                0 <= i <= b@.len(),
                b@ == ciphertext.spec_bytes(),
                forall|j: int| 0 <= j < i ==> b@[j] != SEPARATOR,
            decreases b.len() - i,
        {
            i = i + 1;
        }
        proof {
            lemma_first_field(b@, i as int);
            encode_utf8_valid_utf8(ciphertext@);
            is_char_boundary_start_end_of_seq(b@);
            if i < b@.len() {
                is_char_boundary_iff_not_is_continuation_byte(b@, i as int);
            }
        }
        let (tag, _rest) = ciphertext.split_at(i);
        proof {
            assert(tag.spec_bytes() =~= b@.take(i as int));
            encode_utf8_decode_utf8(tag@);
        }
        self.str_to_version(tag)
    }

    fn str_to_version(&self, client_version: &str) -> (r: Result<ClientVersion, String>) {
        let b = client_version.as_bytes();
        proof {
            assert(ClientVersion::V1.tag() =~= seq![49u8]);
        }
        if b.len() == 1 && b[0] == 49 {
            assert(b@ =~= ClientVersion::V1.tag());
            Ok(ClientVersion::V1)
        } else if b.len() == 1 && b[0] == 50 {
            assert(b@ =~= ClientVersion::V2.tag());
            Ok(ClientVersion::V2)
        } else if b.len() == 1 && b[0] == 51 {
            assert(b@ =~= ClientVersion::V3.tag());
            Ok(ClientVersion::V3)
        } else {
            assert(b@ != ClientVersion::V1.tag());
            assert(b@ != ClientVersion::V2.tag());
            assert(b@ != ClientVersion::V3.tag());
            let mut m = String::from_str("Unknown client version: ");
            m.append(client_version);
            Err(m)
        }
    }
}

} // verus!
