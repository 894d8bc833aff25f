//! Version 2: `2:lockdate:cipher:hint`, built on version 1.

use vstd::prelude::*;
use vstd::utf8::*;
use crate::client::{
    Client, ClientEncryptArg, ClientDecryptResultSuccess, ClientDecryptResultFailure, ClientError,
    ErrorKind, KeyResponse, enciphered, parse_view, format_failure, open_envelope,
};
use crate::config::DefaultConfig;
use crate::envelope::{
    EnvelopeView, ParsedEnvelope, envelope_bytes, envelope_fields, parse_v2,
    decode_text_field, join_at_separators, lemma_envelope_split, seal,
};
use crate::fields::{split_at_separators, split_fields};
use crate::lockdate::{Lockdate, LOCKDATE_FORMAT, lockdate_text};
use crate::version::{ClientVersion, DefaultAnalyzer};
use crate::v1_client::V1Client;

verus! {

broadcast use lemma_envelope_split;

/// The client of version 2: a hint, no filename.
pub struct V2Client {
    v1_client: V1Client,
}

impl V2Client {
    pub fn new(analyzer: DefaultAnalyzer, config: DefaultConfig) -> (r: V2Client)
        ensures
            r.config_spec() == config,
    {
        V2Client { v1_client: V1Client::new(analyzer, config) }
    }

    pub closed spec fn config_spec(self) -> DefaultConfig {
        self.v1_client.config_spec()
    }

    /// The cipher of `args.plaintext`, produced by the version 1 client.
    pub fn encrypt_cipher(&self, args: &ClientEncryptArg, key: &KeyResponse) -> (r: Result<
        Vec<u8>,
        ClientError,
    >)
        ensures
            enciphered(*args, *key, r),
    {
        self.v1_client.encrypt_cipher(args, key)
    }

    /// Takes a version 2 envelope apart.
    pub(crate) fn parse_bytes(&self, env: &[u8]) -> (r: Result<
        ParsedEnvelope,
        ClientDecryptResultFailure,
    >)
        ensures
            parse_view(r) == parse_v2(env@),
            r matches Err(e) ==> e.kind == ErrorKind::Format && e.error_message@.len() > 0,
            r matches Ok(p) ==> p.lockdate.wf(),
            forall|d: Lockdate, c: Seq<u8>, h: Seq<char>, f: Seq<char>|
                d.wf() && env@ == #[trigger] envelope_bytes(ClientVersion::V2, d, c, h, f)
                    ==> parse_view(r) == (EnvelopeView::Parsed {
                    lockdate: d,
                    cipher: c,
                    hint: h,
                    filename: Seq::empty(),
                }),
    {
        let fs = split_at_separators(env);
        if fs.len() != 4 {
            return Err(
                format_failure(
                    "It must consist of 4 components separted by a colon.",
                ),
            );
        }
        assert(fs@[0]@ == split_fields(env@)[0]);
        if !(fs[0].len() == 1 && fs[0][0] == 50) {
            assert(fs@[0]@ != ClientVersion::V2.tag());
            return Err(format_failure("It is not a version 2 cipher."));
        }
        assert(fs@[0]@ =~= ClientVersion::V2.tag());
        assert(fs@[3]@ == split_fields(env@)[3]);
        let hint = match decode_text_field(fs[3].as_slice()) {
            Some(t) => t,
            None => {
                return Err(
                    format_failure("Its hint is not base64 of UTF-8 text."),
                );
            },
        };
        let mut tag: Vec<u8> = Vec::new();
        tag.push(49u8);
        let mut parts: Vec<&[u8]> = Vec::new();
        parts.push(tag.as_slice());
        parts.push(fs[1].as_slice());
        parts.push(fs[2].as_slice());
        let inner = join_at_separators(&parts);
        let ghost sf = split_fields(env@);
        proof {
            assert(Seq::new(parts@.len(), |i: int| parts@[i]@) =~= seq![
                ClientVersion::V1.tag(),
                sf[1],
                sf[2],
            ]);
            assert forall|d: Lockdate, c: Seq<u8>, h: Seq<char>, f: Seq<char>|
                d.wf() && env@ == #[trigger] envelope_bytes(ClientVersion::V2, d, c, h, f)
                implies inner@ == envelope_bytes(ClientVersion::V1, d, c, h, f) && hint@ == h by {
                assert(envelope_fields(ClientVersion::V1, lockdate_text(d), c, h, f) =~= seq![
                    ClientVersion::V1.tag(),
                    sf[1],
                    sf[2],
                ]);
            }
        }
        match self.v1_client.parse_bytes(inner.as_slice()) {
            Ok(p) => {
                let r = Ok(ParsedEnvelope {
                    lockdate: p.lockdate,
                    cipher: p.cipher,
                    hint,
                    filename: String::new(),
                });
                proof {
                    assert forall|d: Lockdate, c: Seq<u8>, h: Seq<char>, f: Seq<char>|
                        d.wf() && env@ == #[trigger] envelope_bytes(ClientVersion::V2, d, c, h, f)
                        implies parse_view(r) == (EnvelopeView::Parsed {
                        lockdate: d,
                        cipher: c,
                        hint: h,
                        filename: Seq::empty(),
                    }) by {
                        assert(inner@ == envelope_bytes(ClientVersion::V1, d, c, h, f));
                    }
                }
                r
            },
            Err(e) => {
                let r = Err(ClientDecryptResultFailure {
                    kind: e.kind,
                    error_message: e.error_message,
                    hint,
                    filename: String::new(),
                });
                proof {
                    assert forall|d: Lockdate, c: Seq<u8>, h: Seq<char>, f: Seq<char>|
                        d.wf() && env@ == #[trigger] envelope_bytes(ClientVersion::V2, d, c, h, f)
                        implies false by {
                        assert(inner@ == envelope_bytes(ClientVersion::V1, d, c, h, f));
                    }
                }
                r
            },
        }
    }

    /// Takes a version 2 envelope apart: its lockdate, cipher bytes and hint,
    /// or the format failure that it holds.
    pub fn parse(&self, ciphertext: &str) -> (r: Result<
        ParsedEnvelope,
        ClientDecryptResultFailure,
    >)
        ensures
            parse_view(r) == parse_v2(encode_utf8(ciphertext@)),
            r matches Err(e) ==> e.kind == ErrorKind::Format && e.error_message@.len() > 0,
            r matches Ok(p) ==> p.lockdate.wf(),
            forall|d: Lockdate, c: Seq<u8>, h: Seq<char>, f: Seq<char>|
                d.wf() && encode_utf8(ciphertext@) == #[trigger] envelope_bytes(
                    ClientVersion::V2,
                    d,
                    c,
                    h,
                    f,
                ) ==> parse_view(r) == (EnvelopeView::Parsed {
                    lockdate: d,
                    cipher: c,
                    hint: h,
                    filename: Seq::empty(),
                }),
    {
        self.parse_bytes(ciphertext.as_bytes())
    }
}

impl Client for V2Client {
    open spec fn encrypting_version(&self, args: ClientEncryptArg) -> ClientVersion {
        ClientVersion::V2
    }

    open spec fn decrypting_version(&self, env: Seq<char>) -> Option<ClientVersion> {
        Some(ClientVersion::V2)
    }

    open spec fn refusal(&self, env: Seq<char>) -> Seq<char> {
        Seq::empty()
    }

    open spec fn client_version(&self) -> ClientVersion {
        ClientVersion::V2
    }

    fn get_datetime_format(&self) -> (r: &'static str) {
        LOCKDATE_FORMAT
    }

    fn get_client_version(&self) -> (r: ClientVersion) {
        ClientVersion::V2
    }

    fn encrypt_key_request(&self, args: &ClientEncryptArg) -> (r: Result<Lockdate, ClientError>) {
        if !args.filename.as_str().is_empty() {
            return Err(
                ClientError {
                    kind: ErrorKind::Capability,
                    message: String::from_str("Client version 2 does not support a filename."),
                },
            );
        }
        Ok(args.lockdate)
    }

    /// Takes the cipher from the version 1 client, then seals it into an
    /// envelope of this version.
    fn encrypt(&self, args: &ClientEncryptArg, key: &KeyResponse) -> (r: Result<
        String,
        ClientError,
    >) {
        match self.encrypt_key_request(args) {
            Err(e) => {
                return Err(e);
            },
            Ok(_) => {},
        }
        let cipher = match self.encrypt_cipher(args, key) {
            Ok(c) => c,
            Err(e) => {
                return Err(e);
            },
        };
        Ok(
            seal(
                ClientVersion::V2,
                &args.lockdate,
                cipher.as_slice(),
                args.hint.as_str(),
                args.filename.as_str(),
            ),
        )
    }

    fn decrypt_key_request(&self, ciphertext: &str) -> (r: Result<
        Lockdate,
        ClientDecryptResultFailure,
    >) {
        match self.parse(ciphertext) {
            Ok(p) => Ok(p.lockdate),
            Err(e) => Err(e),
        }
    }

    fn lockdate_from_snailcrypt_cipher(&self, ciphertext: &str) -> (r: Result<Lockdate, String>) {
        match self.parse(ciphertext) {
            Ok(p) => Ok(p.lockdate),
            Err(e) => Err(e.error_message),
        }
    }

    fn decrypt(&self, ciphertext: &str, key: &KeyResponse) -> (r: Result<
        ClientDecryptResultSuccess,
        ClientDecryptResultFailure,
    >) {
        match self.parse(ciphertext) {
            Err(e) => Err(e),
            Ok(p) => open_envelope(p, key),
        }
    }
}

} // verus!
