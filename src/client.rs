//! What the clients take and give, and opening a parsed envelope with the key
//! that the key-release service handed out.

use vstd::prelude::*;
use vstd::utf8::*;
use crate::chunk_cipher::{decrypt_chunks, chunk_decryption, cipher_of_length, rsa_public_size};
use crate::encoding::utf8_to_string;
use crate::envelope::{ParsedEnvelope, EnvelopeView, envelope_bytes, parse_envelope, invalid, lemma_invalid_nonempty};
use crate::lockdate::{Lockdate, LOCKDATE_FORMAT};
use crate::text::ascii_chars;
use crate::version::ClientVersion;

verus! {

/// What is to be encrypted, until when, and the texts that travel with it.
pub struct ClientEncryptArg {
    pub plaintext: String,
    pub lockdate: Lockdate,
    pub hint: String,
    pub filename: String,
}

/// An opened envelope. The hint and filename are empty where the envelope's
/// version has no such field.
#[derive(Debug)]
pub struct ClientDecryptResultSuccess {
    pub plaintext: String,
    pub hint: String,
    pub filename: String,
}

impl ClientDecryptResultSuccess {
    /// The plaintext.
    pub fn to_string(&self) -> (r: String)
        ensures
            r@ == self.plaintext@,
    {
        self.plaintext.clone()
    }
}

/// The kinds of failure.
#[derive(Debug, PartialEq, Eq, Structural, Clone, Copy)]
pub enum ErrorKind {
    /// The envelope is malformed: field count, version tag, base64, UTF-8 or
    /// lockdate.
    Format,
    /// The private key of the lockdate has not been released yet.
    KeyUnavailable,
    /// The key-release service could not be asked, or answered with an error.
    KeyLookupFailed,
    /// RSA failed: an unreadable key, a corrupt cipher or a wrong key.
    Crypto,
    /// The client's version does not support what was asked of it.
    Capability,
}

/// An envelope that could not be opened, with the hint and filename that
/// were decoded before the failure (empty where they were not).
#[derive(Debug)]
pub struct ClientDecryptResultFailure {
    pub kind: ErrorKind,
    pub error_message: String,
    pub hint: String,
    pub filename: String,
}

impl ClientDecryptResultFailure {
    /// The error message.
    pub fn to_string(&self) -> (r: String)
        ensures
            r@ == self.error_message@,
    {
        self.error_message.clone()
    }
}

/// A failure to encrypt.
#[derive(Debug)]
pub struct ClientError {
    pub kind: ErrorKind,
    pub message: String,
}

impl ClientError {
    /// The error message.
    pub fn to_string(&self) -> (r: String)
        ensures
            r@ == self.message@,
    {
        self.message.clone()
    }
}

/// What the key-release service answered for a lockdate.
pub enum KeyResponse {
    /// The key, PEM-encoded.
    Released(String),
    /// The lockdate has not passed: the private key is withheld.
    NotYetReleased,
    /// The service could not be asked, or answered with this error.
    LookupFailed(String),
}

/// The envelope of version `version` supports what `args` asks for: a hint
/// from version 2 on, a filename from version 3 on.
pub open spec fn supports(version: ClientVersion, args: ClientEncryptArg) -> bool {
    match version {
        ClientVersion::V1 => args.hint@.len() == 0 && args.filename@.len() == 0,
        ClientVersion::V2 => args.filename@.len() == 0,
        ClientVersion::V3 => true,
    }
}

/// The message of the capability failure of `version` for `args`.
pub open spec fn capability_message(version: ClientVersion, args: ClientEncryptArg) -> Seq<char> {
    match version {
        ClientVersion::V1 => if args.hint@.len() > 0 {
            "Client version 1 does not support a plaintext hint."@
        } else {
            "Client version 1 does not support a filename."@
        },
        _ => "Client version 2 does not support a filename."@,
    }
}

/// The message of a withheld public key.
pub open spec fn public_key_withheld() -> Seq<char> {
    "Error: public key has not been released"@
}

/// The message of a withheld private key.
pub open spec fn private_key_withheld() -> Seq<char> {
    "Error: private key has not been yet released"@
}

/// `env` is an envelope of `version` for `args`, whose cipher is one block of
/// the size of the key in `pem` for each chunk of the plaintext.
pub open spec fn sealed(
    version: ClientVersion,
    args: ClientEncryptArg,
    pem: Seq<u8>,
    env: Seq<char>,
) -> bool {
    exists|c: Seq<u8>|
        cipher_of_length(pem, encode_utf8(args.plaintext@).len() as int, c) && env == ascii_chars(
            #[trigger] envelope_bytes(version, args.lockdate, c, args.hint@, args.filename@),
        )
}

/// What producing the cipher of `args` gives, as seen in specifications: for
/// each answer of the key-release service, the failure, or a cipher of one
/// block of the key's size for each chunk.
pub open spec fn enciphered(
    args: ClientEncryptArg,
    key: KeyResponse,
    r: Result<Vec<u8>, ClientError>,
) -> bool {
    match key {
        KeyResponse::NotYetReleased => r matches Err(e) && e.kind == ErrorKind::KeyUnavailable
            && e.message@ == public_key_withheld(),
        KeyResponse::LookupFailed(m) => r matches Err(e) && e.kind == ErrorKind::KeyLookupFailed
            && e.message@ == m@,
        KeyResponse::Released(pem) => {
            &&& r matches Ok(c) ==> cipher_of_length(
                encode_utf8(pem@),
                encode_utf8(args.plaintext@).len() as int,
                c@,
            )
            &&& r matches Err(e) ==> e.kind == ErrorKind::Crypto
            &&& rsa_public_size(encode_utf8(pem@)) is None ==> r is Err
            &&& encode_utf8(pem@).len() <= i32::MAX && rsa_public_size(encode_utf8(pem@)) is Some
                && encode_utf8(args.plaintext@).len() == 0 ==> r is Ok
        },
    }
}

/// What encrypting `args` with the client of `version` gives, as seen in
/// specifications: a capability failure exactly where the version does not
/// support `args`, and otherwise, for each answer of the key-release service,
/// the failure or an envelope of `version` for `args`.
pub open spec fn encrypted(
    version: ClientVersion,
    args: ClientEncryptArg,
    key: KeyResponse,
    r: Result<String, ClientError>,
) -> bool {
    if !supports(version, args) {
        r matches Err(e) && e.kind == ErrorKind::Capability && e.message@ == capability_message(
            version,
            args,
        )
    } else {
        match key {
            KeyResponse::NotYetReleased => r matches Err(e) && e.kind == ErrorKind::KeyUnavailable
                && e.message@ == public_key_withheld(),
            KeyResponse::LookupFailed(m) => r matches Err(e) && e.kind
                == ErrorKind::KeyLookupFailed && e.message@ == m@,
            KeyResponse::Released(pem) => {
                &&& r matches Ok(env) ==> sealed(version, args, encode_utf8(pem@), env@)
                &&& r matches Err(e) ==> e.kind == ErrorKind::Crypto
                &&& rsa_public_size(encode_utf8(pem@)) is None ==> r is Err
                &&& encode_utf8(pem@).len() <= i32::MAX && rsa_public_size(encode_utf8(pem@))
                    is Some && encode_utf8(args.plaintext@).len() == 0 ==> r is Ok
            },
        }
    }
}

/// What a parse gives, as seen in specifications.
pub open spec fn parse_view(r: Result<ParsedEnvelope, ClientDecryptResultFailure>) -> EnvelopeView {
    match r {
        Ok(p) => EnvelopeView::Parsed {
            lockdate: p.lockdate,
            cipher: p.cipher@,
            hint: p.hint@,
            filename: p.filename@,
        },
        Err(e) => EnvelopeView::Rejected {
            message: e.error_message@,
            hint: e.hint@,
            filename: e.filename@,
        },
    }
}

/// The hint that an envelope of `version` carries for `hint`: none in version 1.
pub open spec fn carried_hint(version: ClientVersion, hint: Seq<char>) -> Seq<char> {
    match version {
        ClientVersion::V1 => Seq::empty(),
        _ => hint,
    }
}

/// The filename that an envelope of `version` carries for `filename`: one
/// only in version 3.
pub open spec fn carried_filename(version: ClientVersion, filename: Seq<char>) -> Seq<char> {
    match version {
        ClientVersion::V3 => filename,
        _ => Seq::empty(),
    }
}

/// The lockdate of an envelope of `version`, if it parses.
pub open spec fn envelope_lockdate(version: ClientVersion, env: Seq<u8>) -> Option<Lockdate> {
    match parse_envelope(version, env) {
        EnvelopeView::Parsed { lockdate, .. } => Some(lockdate),
        EnvelopeView::Rejected { .. } => None,
    }
}

/// The lockdate that a result holds, if any.
pub open spec fn lockdate_of_result(r: Result<Lockdate, String>) -> Option<Lockdate> {
    match r {
        Ok(d) => Some(d),
        Err(_) => None,
    }
}

/// What opening cipher bytes that came with a hint and a filename gives, as
/// seen in specifications: for each answer of the key-release service, the
/// failure, or the plaintext that the cipher decrypts to, where it is UTF-8
/// text. Every failure keeps the hint and filename.
pub open spec fn opened_view(
    cipher: Seq<u8>,
    hint: Seq<char>,
    filename: Seq<char>,
    key: KeyResponse,
    r: Result<ClientDecryptResultSuccess, ClientDecryptResultFailure>,
) -> bool {
    &&& r matches Err(e) ==> e.hint@ == hint && e.filename@ == filename
    &&& match key {
        KeyResponse::NotYetReleased => r matches Err(e) && e.kind == ErrorKind::KeyUnavailable
            && e.error_message@ == private_key_withheld(),
        KeyResponse::LookupFailed(m) => r matches Err(e) && e.kind == ErrorKind::KeyLookupFailed
            && e.error_message@ == m@,
        KeyResponse::Released(pem) => match chunk_decryption(encode_utf8(pem@), cipher) {
            Some(p) => if valid_utf8(p) {
                r matches Ok(s) && s.plaintext@ == decode_utf8(p) && s.hint@ == hint
                    && s.filename@ == filename
            } else {
                r matches Err(e) && e.kind == ErrorKind::Crypto
            },
            None => r matches Err(e) && e.kind == ErrorKind::Crypto,
        },
    }
}

/// What opening a parsed envelope gives, as seen in specifications.
pub open spec fn opened(
    parsed: ParsedEnvelope,
    key: KeyResponse,
    r: Result<ClientDecryptResultSuccess, ClientDecryptResultFailure>,
) -> bool {
    opened_view(parsed.cipher@, parsed.hint@, parsed.filename@, key, r)
}

/// What decrypting an envelope gives, as seen in specifications: the parse's
/// refusal as a format failure with its message, hint and filename, or the
/// opening of what it parsed.
pub open spec fn decrypted(
    view: EnvelopeView,
    key: KeyResponse,
    r: Result<ClientDecryptResultSuccess, ClientDecryptResultFailure>,
) -> bool {
    match view {
        EnvelopeView::Rejected { message, hint, filename } => r matches Err(e) && e.kind
            == ErrorKind::Format && e.error_message@ == message && e.hint@ == hint
            && e.filename@ == filename,
        EnvelopeView::Parsed { lockdate, cipher, hint, filename } => opened_view(
            cipher,
            hint,
            filename,
            key,
            r,
        ),
    }
}

/// What asking for the key of an envelope gives, as seen in specifications:
/// the lockdate that it parsed to, or its refusal as a format failure.
pub open spec fn key_request_view(view: EnvelopeView, r: Result<Lockdate, ClientDecryptResultFailure>) -> bool {
    match view {
        EnvelopeView::Parsed { lockdate, .. } => r matches Ok(d) && d == lockdate,
        EnvelopeView::Rejected { message, hint, filename } => r matches Err(e) && e.kind
            == ErrorKind::Format && e.error_message@ == message && e.hint@ == hint
            && e.filename@ == filename,
    }
}

/// Encrypts into envelopes and opens them again, with the keys that the
/// key-release service hands out. Asking the service is the caller's part:
/// `encrypt_key_request` and `lockdate_from_snailcrypt_cipher` say which
/// lockdate's key is needed, and `encrypt` and `decrypt` take the service's
/// answer.
pub trait Client {
    /// The version of the envelope that encrypting `args` gives.
    spec fn encrypting_version(&self, args: ClientEncryptArg) -> ClientVersion;

    /// The version as which the envelope `env` is read, if any.
    spec fn decrypting_version(&self, env: Seq<char>) -> Option<ClientVersion>;

    /// The message for an envelope that is read as no version.
    spec fn refusal(&self, env: Seq<char>) -> Seq<char>;

    /// The lockdate whose public key an encryption of `args` needs, or the
    /// capability failure that ends it before any key is asked for.
    fn encrypt_key_request(&self, args: &ClientEncryptArg) -> (r: Result<Lockdate, ClientError>)
        ensures
            supports(self.encrypting_version(*args), *args) <==> r is Ok,
            r matches Ok(d) ==> d == args.lockdate,
            r matches Err(e) ==> e.kind == ErrorKind::Capability && e.message@
                == capability_message(self.encrypting_version(*args), *args),
    ;

    /// Encrypts `args.plaintext` with the public key of `args.lockdate` that
    /// the key-release service answered with.
    fn encrypt(&self, args: &ClientEncryptArg, key: &KeyResponse) -> (r: Result<String, ClientError>)
        requires
            args.lockdate.wf(),
        ensures
            encrypted(self.encrypting_version(*args), *args, *key, r),
    ;

    /// Opens an envelope with the private key of its lockdate that the
    /// key-release service answered with. An envelope that encrypting
    /// produced parses back to the lockdate, cipher and texts it was made of.
    fn decrypt(&self, ciphertext: &str, key: &KeyResponse) -> (r: Result<
        ClientDecryptResultSuccess,
        ClientDecryptResultFailure,
    >)
        ensures
            self.decrypting_version(ciphertext@) matches Some(v) ==> decrypted(
                parse_envelope(v, encode_utf8(ciphertext@)),
                *key,
                r,
            ),
            self.decrypting_version(ciphertext@) is None ==> (r matches Err(e) && e.kind
                == ErrorKind::Format && e.error_message@ == self.refusal(ciphertext@)
                && e.hint@.len() == 0 && e.filename@.len() == 0),
            r matches Err(e) ==> e.error_message@.len() > 0 || e.kind == ErrorKind::KeyLookupFailed,
            forall|v: ClientVersion, d: Lockdate, c: Seq<u8>, h: Seq<char>, f: Seq<char>|
                self.decrypting_version(ciphertext@) == Some(v) && d.wf() && encode_utf8(
                    ciphertext@,
                ) == #[trigger] envelope_bytes(v, d, c, h, f) ==> parse_envelope(
                    v,
                    encode_utf8(ciphertext@),
                ) == (EnvelopeView::Parsed {
                    lockdate: d,
                    cipher: c,
                    hint: carried_hint(v, h),
                    filename: carried_filename(v, f),
                }),
    ;

    /// The lockdate whose private key opening `ciphertext` needs, or the
    /// format failure that ends it before any key is asked for, with the hint
    /// and filename decoded before it.
    fn decrypt_key_request(&self, ciphertext: &str) -> (r: Result<
        Lockdate,
        ClientDecryptResultFailure,
    >)
        ensures
            self.decrypting_version(ciphertext@) matches Some(v) ==> key_request_view(
                parse_envelope(v, encode_utf8(ciphertext@)),
                r,
            ),
            self.decrypting_version(ciphertext@) is None ==> (r matches Err(e) && e.kind
                == ErrorKind::Format && e.error_message@ == self.refusal(ciphertext@)
                && e.hint@.len() == 0 && e.filename@.len() == 0),
    ;

    /// The lockdate of an envelope.
    fn lockdate_from_snailcrypt_cipher(&self, ciphertext: &str) -> (r: Result<Lockdate, String>)
        ensures
            self.decrypting_version(ciphertext@) matches Some(v) ==> lockdate_of_result(r)
                == envelope_lockdate(v, encode_utf8(ciphertext@)),
            self.decrypting_version(ciphertext@) is None ==> r is Err,
    ;

    /// The pattern in which lockdates are written.
    fn get_datetime_format(&self) -> (r: &'static str)
        ensures
            r == LOCKDATE_FORMAT,
    ;

    /// The version of this client, as seen in specifications.
    spec fn client_version(&self) -> ClientVersion;

    /// The version of this client.
    fn get_client_version(&self) -> (r: ClientVersion)
        ensures
            r == self.client_version(),
    ;
}

/// A format failure with empty hint and filename, whose message says what is
/// wrong with the envelope.
pub fn format_failure(what: &str) -> (r: ClientDecryptResultFailure)
    ensures
        r.kind == ErrorKind::Format,
        r.error_message@ == invalid(what@),
        r.error_message@.len() > 0,
        r.hint@ == Seq::<char>::empty(),
        r.filename@ == Seq::<char>::empty(),
{
    let mut m = String::from_str("Cipher is invalid. ");
    m.append(what);
    proof {
        lemma_invalid_nonempty(what@);
    }
    ClientDecryptResultFailure {
        kind: ErrorKind::Format,
        error_message: m,
        hint: String::new(),
        filename: String::new(),
    }
}

/// Decrypts the cipher of a parsed envelope with the private key that the
/// key-release service answered with, keeping the hint and filename whatever
/// happens.
pub fn open_envelope(parsed: ParsedEnvelope, key: &KeyResponse) -> (r: Result<
    ClientDecryptResultSuccess,
    ClientDecryptResultFailure,
>)
    ensures
        opened(parsed, *key, r),
        r matches Err(e) ==> e.error_message@.len() > 0 || e.kind == ErrorKind::KeyLookupFailed,
{
    let ParsedEnvelope { lockdate: _, cipher, hint, filename } = parsed;
    match key {
        KeyResponse::NotYetReleased => {
            let m = String::from_str("Error: private key has not been yet released");
            proof {
                reveal_strlit("Error: private key has not been yet released");
            }
            Err(
                ClientDecryptResultFailure {
                    kind: ErrorKind::KeyUnavailable,
                    error_message: m,
                    hint,
                    filename,
                },
            )
        },
        KeyResponse::LookupFailed(m) => Err(
            ClientDecryptResultFailure {
                kind: ErrorKind::KeyLookupFailed,
                error_message: m.clone(),
                hint,
                filename,
            },
        ),
        KeyResponse::Released(pem) => {
            match decrypt_chunks(pem.as_str().as_bytes(), cipher.as_slice()) {
                Err(_) => {
                    let m = String::from_str("Error: the cipher cannot be decrypted with this key");
                    proof {
                        reveal_strlit("Error: the cipher cannot be decrypted with this key");
                    }
                    Err(
                        ClientDecryptResultFailure {
                            kind: ErrorKind::Crypto,
                            error_message: m,
                            hint,
                            filename,
                        },
                    )
                },
                Ok(p) => {
                    match utf8_to_string(p) {
                        Some(s) => Ok(ClientDecryptResultSuccess { plaintext: s, hint, filename }),
                        None => {
                            let m = String::from_str("Error: the plaintext is not UTF-8 text");
                            proof {
                                reveal_strlit("Error: the plaintext is not UTF-8 text");
                            }
                            Err(
                                ClientDecryptResultFailure {
                                    kind: ErrorKind::Crypto,
                                    error_message: m,
                                    hint,
                                    filename,
                                },
                            )
                        },
                    }
                },
            }
        },
    }
}

} // verus!
