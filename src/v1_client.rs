//! Version 1: `1:lockdate:cipher`.

use vstd::prelude::*;
use vstd::utf8::*;
use crate::chunk_cipher::encrypt_chunks;
use crate::client::{
    Client, ClientEncryptArg, ClientDecryptResultSuccess, ClientDecryptResultFailure, ClientError,
    ErrorKind, KeyResponse, enciphered, parse_view, format_failure, open_envelope,
};
use crate::config::DefaultConfig;
use crate::encoding::decode_base64;
use crate::envelope::{
    EnvelopeView, ParsedEnvelope, envelope_bytes, parse_v1, decode_text_field,
    lemma_envelope_split, seal,
};
use crate::fields::{split_at_separators, split_fields};
use crate::lockdate::{Lockdate, LOCKDATE_FORMAT};
use crate::version::{ClientVersion, DefaultAnalyzer};

verus! {

broadcast use lemma_envelope_split;

/// The client of version 1: no hint, no filename.
pub struct V1Client {
    analyzer: DefaultAnalyzer,
    config: DefaultConfig,
}

impl V1Client {
    pub fn new(analyzer: DefaultAnalyzer, config: DefaultConfig) -> (r: V1Client)
        ensures
            r.config_spec() == config,
            r.analyzer_spec() == analyzer,
    {
        V1Client { analyzer, config }
    }

    pub closed spec fn config_spec(self) -> DefaultConfig {
        self.config
    }

    pub closed spec fn analyzer_spec(self) -> DefaultAnalyzer {
        self.analyzer
    }

    pub fn get_analyzer(&self) -> (r: &DefaultAnalyzer)
        ensures
            *r == self.analyzer_spec(),
    {
        &self.analyzer
    }

    pub fn get_config(&self) -> (r: &DefaultConfig)
        ensures
            *r == self.config_spec(),
    {
        &self.config
    }

    /// The cipher of `args.plaintext` for the public key that the key-release
    /// service answered with, the part of encryption that the later versions
    /// take over unchanged.
    pub fn encrypt_cipher(&self, args: &ClientEncryptArg, key: &KeyResponse) -> (r: Result<
        Vec<u8>,
        ClientError,
    >)
        ensures
            enciphered(*args, *key, r),
    {
        match key {
            KeyResponse::Released(pem) => {
                match encrypt_chunks(pem.as_str().as_bytes(), args.plaintext.as_str().as_bytes()) {
                    Ok(c) => Ok(c),
                    Err(m) => Err(ClientError { kind: ErrorKind::Crypto, message: m }),
                }
            },
            KeyResponse::NotYetReleased => Err(
                ClientError {
                    kind: ErrorKind::KeyUnavailable,
                    message: String::from_str("Error: public key has not been released"),
                },
            ),
            KeyResponse::LookupFailed(m) => Err(
                ClientError { kind: ErrorKind::KeyLookupFailed, message: m.clone() },
            ),
        }
    }

    /// Takes a version 1 envelope apart.
    pub(crate) fn parse_bytes(&self, env: &[u8]) -> (r: Result<
        ParsedEnvelope,
        ClientDecryptResultFailure,
    >)
        ensures
            parse_view(r) == parse_v1(env@),
            r matches Err(e) ==> e.kind == ErrorKind::Format && e.error_message@.len() > 0,
            r matches Ok(p) ==> p.lockdate.wf(),
            forall|d: Lockdate, c: Seq<u8>, h: Seq<char>, f: Seq<char>|
                d.wf() && env@ == #[trigger] envelope_bytes(ClientVersion::V1, d, c, h, f)
                    ==> parse_view(r) == (EnvelopeView::Parsed {
                    lockdate: d,
                    cipher: c,
                    hint: Seq::empty(),
                    filename: Seq::empty(),
                }),
    {
        let fs = split_at_separators(env);
        if fs.len() != 3 {
            return Err(format_failure("It must consist of 3 components separted by a colon."));
        }
        assert(fs@[0]@ == split_fields(env@)[0]);
        if !(fs[0].len() == 1 && fs[0][0] == 49) {
            assert(fs@[0]@ != ClientVersion::V1.tag());
            return Err(format_failure("It is not a version 1 cipher."));
        }
        assert(fs@[0]@ =~= ClientVersion::V1.tag());
        assert(fs@[1]@ == split_fields(env@)[1]);
        assert(fs@[2]@ == split_fields(env@)[2]);
        let text = match decode_text_field(fs[1].as_slice()) {
            Some(t) => t,
            None => {
                return Err(format_failure("Its lockdate is not base64 of UTF-8 text."));
            },
        };
        let lockdate = match Lockdate::parse(text.as_str()) {
            Some(d) => d,
            None => {
                return Err(format_failure("Its lockdate cannot be read."));
            },
        };
        let cipher = match decode_base64(fs[2].as_slice()) {
            Some(c) => c,
            None => {
                return Err(format_failure("Its cipher is not base64."));
            },
        };
        Ok(ParsedEnvelope { lockdate, cipher, hint: String::new(), filename: String::new() })
    }

    /// Takes a version 1 envelope apart: its lockdate and cipher bytes, or the
    /// format failure that it holds.
    pub fn parse(&self, ciphertext: &str) -> (r: Result<
        ParsedEnvelope,
        ClientDecryptResultFailure,
    >)
        ensures
            parse_view(r) == parse_v1(encode_utf8(ciphertext@)),
            r matches Err(e) ==> e.kind == ErrorKind::Format && e.error_message@.len() > 0,
            r matches Ok(p) ==> p.lockdate.wf(),
            forall|d: Lockdate, c: Seq<u8>, h: Seq<char>, f: Seq<char>|
                d.wf() && encode_utf8(ciphertext@) == #[trigger] envelope_bytes(
                    ClientVersion::V1,
                    d,
                    c,
                    h,
                    f,
                ) ==> parse_view(r) == (EnvelopeView::Parsed {
                    lockdate: d,
                    cipher: c,
                    hint: Seq::empty(),
                    filename: Seq::empty(),
                }),
    {
        self.parse_bytes(ciphertext.as_bytes())
    }
}

impl Client for V1Client {
    open spec fn encrypting_version(&self, args: ClientEncryptArg) -> ClientVersion {
        ClientVersion::V1
    }

    open spec fn decrypting_version(&self, env: Seq<char>) -> Option<ClientVersion> {
        Some(ClientVersion::V1)
    }

    open spec fn refusal(&self, env: Seq<char>) -> Seq<char> {
        Seq::empty()
    }

    open spec fn client_version(&self) -> ClientVersion {
        ClientVersion::V1
    }

    fn get_datetime_format(&self) -> (r: &'static str) {
        LOCKDATE_FORMAT
    }

    fn get_client_version(&self) -> (r: ClientVersion) {
        ClientVersion::V1
    }

    fn encrypt_key_request(&self, args: &ClientEncryptArg) -> (r: Result<Lockdate, ClientError>) {
        if !args.hint.as_str().is_empty() {
            return Err(
                ClientError {
                    kind: ErrorKind::Capability,
                    message: String::from_str("Client version 1 does not support a plaintext hint."),
                },
            );
        }
        if !args.filename.as_str().is_empty() {
            return Err(
                ClientError {
                    kind: ErrorKind::Capability,
                    message: String::from_str("Client version 1 does not support a filename."),
                },
            );
        }
        Ok(args.lockdate)
    }

    /// Produces the cipher, then seals it into a version 1 envelope.
    fn encrypt(&self, args: &ClientEncryptArg, key: &KeyResponse) -> (r: Result<
        String,
        ClientError,
    >) {
        match self.encrypt_key_request(args) {
            Err(e) => {
                return Err(e);
            },
            Ok(_) => {},
        }
        let cipher = match self.encrypt_cipher(args, key) {
            Ok(c) => c,
            Err(e) => {
                return Err(e);
            },
        };
        Ok(
            seal(
                ClientVersion::V1,
                &args.lockdate,
                cipher.as_slice(),
                args.hint.as_str(),
                args.filename.as_str(),
            ),
        )
    }

    fn decrypt_key_request(&self, ciphertext: &str) -> (r: Result<
        Lockdate,
        ClientDecryptResultFailure,
    >) {
        match self.parse(ciphertext) {
            Ok(p) => Ok(p.lockdate),
            Err(e) => Err(e),
        }
    }

    fn lockdate_from_snailcrypt_cipher(&self, ciphertext: &str) -> (r: Result<Lockdate, String>) {
        match self.parse(ciphertext) {
            Ok(p) => Ok(p.lockdate),
            Err(e) => Err(e.error_message),
        }
    }

    fn decrypt(&self, ciphertext: &str, key: &KeyResponse) -> (r: Result<
        ClientDecryptResultSuccess,
        ClientDecryptResultFailure,
    >) {
        match self.parse(ciphertext) {
            Err(e) => Err(e),
            Ok(p) => open_envelope(p, key),
        }
    }
}

} // verus!
