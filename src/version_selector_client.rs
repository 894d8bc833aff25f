//! A client that picks the version: for encryption the lowest that supports
//! what is asked, for decryption the one that the envelope names.

use vstd::prelude::*;
use vstd::utf8::*;
use crate::client::{
    Client, ClientEncryptArg, ClientDecryptResultSuccess, ClientDecryptResultFailure, ClientError,
    ErrorKind, KeyResponse, sealed,
};
use crate::envelope::{envelope_bytes, lemma_envelope_split};
use crate::fields::split_fields;
use crate::lockdate::Lockdate;
use crate::text::{ascii_chars, lemma_ascii_utf8};
use crate::version::{Analyzer, ClientVersion, DefaultAnalyzer, analyzed_version};
use crate::v1_client::V1Client;
use crate::v2_client::V2Client;
use crate::v3_client::V3Client;

verus! {

/// The version that encrypts `args`: 3 with a filename, else 2 with a hint,
/// else 1.
pub open spec fn selected_version(args: ClientEncryptArg) -> ClientVersion {
    if args.filename@.len() > 0 {
        ClientVersion::V3
    } else if args.hint@.len() > 0 {
        ClientVersion::V2
    } else {
        ClientVersion::V1
    }
}

/// An envelope names the version that made it: the analyzer reads that
/// version from any envelope that encrypting with it gives.
pub proof fn lemma_version_of_envelope(
    version: ClientVersion,
    args: ClientEncryptArg,
    pem: Seq<u8>,
    env: Seq<char>,
)
    requires
        sealed(version, args, pem, env),
    ensures
        analyzed_version(env) == Ok::<ClientVersion, Seq<char>>(version),
{
    let c = choose|c: Seq<u8>|
        crate::chunk_cipher::cipher_of_length(pem, encode_utf8(args.plaintext@).len() as int, c)
            && env == ascii_chars(
            #[trigger] envelope_bytes(version, args.lockdate, c, args.hint@, args.filename@),
        );
    let e = envelope_bytes(version, args.lockdate, c, args.hint@, args.filename@);
    lemma_envelope_split(version, args.lockdate, c, args.hint@, args.filename@);
    lemma_ascii_utf8(e);
    let tag = version.tag();
    assert(split_fields(e)[0] == tag);
    assert(crate::text::is_ascii_bytes(tag));
    lemma_ascii_utf8(tag);
}

/// Holds a client of each version and hands each call to one of them.
pub struct VersionSelectorClient {
    analyzer: DefaultAnalyzer,
    v1_client: V1Client,
    v2_client: V2Client,
    v3_client: V3Client,
}

impl VersionSelectorClient {
    pub fn new(
        analyzer: DefaultAnalyzer,
        v1_client: V1Client,
        v2_client: V2Client,
        v3_client: V3Client,
    ) -> (r: VersionSelectorClient)
        ensures
            r.clients_spec() == (v1_client, v2_client, v3_client),
            r.analyzer_spec() == analyzer,
    {
        VersionSelectorClient { analyzer, v1_client, v2_client, v3_client }
    }

    pub closed spec fn clients_spec(self) -> (V1Client, V2Client, V3Client) {
        (self.v1_client, self.v2_client, self.v3_client)
    }

    pub closed spec fn analyzer_spec(self) -> DefaultAnalyzer {
        self.analyzer
    }

    pub fn get_analyzer(&self) -> (r: &DefaultAnalyzer)
        ensures
            *r == self.analyzer_spec(),
    {
        &self.analyzer
    }

}

impl Client for VersionSelectorClient {
    open spec fn encrypting_version(&self, args: ClientEncryptArg) -> ClientVersion {
        selected_version(args)
    }

    open spec fn decrypting_version(&self, env: Seq<char>) -> Option<ClientVersion> {
        match analyzed_version(env) {
            Ok(v) => Some(v),
            Err(_) => None,
        }
    }

    open spec fn refusal(&self, env: Seq<char>) -> Seq<char> {
        match analyzed_version(env) {
            Ok(_) => Seq::empty(),
            Err(m) => m,
        }
    }

    open spec fn client_version(&self) -> ClientVersion {
        ClientVersion::V1
    }

    /// The pattern in which lockdates are written.
    fn get_datetime_format(&self) -> (r: &'static str) {
        self.v1_client.get_datetime_format()
    }

    /// The version of the client that encrypts when neither hint nor filename
    /// is given.
    fn get_client_version(&self) -> (r: ClientVersion) {
        self.v1_client.get_client_version()
    }

    /// The lockdate whose public key an encryption of `args` needs.
    fn encrypt_key_request(&self, args: &ClientEncryptArg) -> (r: Result<Lockdate, ClientError>) {
        Ok(args.lockdate)
    }

    /// Encrypts with the client of the lowest version that supports `args`.
    fn encrypt(&self, args: &ClientEncryptArg, key: &KeyResponse) -> (r: Result<
        String,
        ClientError,
    >) {
        if !args.filename.as_str().is_empty() {
            self.v3_client.encrypt(args, key)
        } else if !args.hint.as_str().is_empty() {
            self.v2_client.encrypt(args, key)
        } else {
            self.v1_client.encrypt(args, key)
        }
    }

    /// What the client of the version that the envelope names asks for.
    fn decrypt_key_request(&self, ciphertext: &str) -> (r: Result<
        Lockdate,
        ClientDecryptResultFailure,
    >) {
        match self.analyzer.get_version(ciphertext) {
            Err(m) => Err(
                ClientDecryptResultFailure {
                    kind: ErrorKind::Format,
                    error_message: m,
                    hint: String::new(),
                    filename: String::new(),
                },
            ),
            Ok(ClientVersion::V1) => self.v1_client.decrypt_key_request(ciphertext),
            Ok(ClientVersion::V2) => self.v2_client.decrypt_key_request(ciphertext),
            Ok(ClientVersion::V3) => self.v3_client.decrypt_key_request(ciphertext),
        }
    }

    /// The lockdate of an envelope, read by the client of the version that it
    /// names.
    fn lockdate_from_snailcrypt_cipher(&self, ciphertext: &str) -> (r: Result<Lockdate, String>) {
        match self.analyzer.get_version(ciphertext) {
            Err(m) => Err(m),
            Ok(ClientVersion::V1) => self.v1_client.lockdate_from_snailcrypt_cipher(ciphertext),
            Ok(ClientVersion::V2) => self.v2_client.lockdate_from_snailcrypt_cipher(ciphertext),
            Ok(ClientVersion::V3) => self.v3_client.lockdate_from_snailcrypt_cipher(ciphertext),
        }
    }

    /// Opens an envelope with the client of the version that it names. An
    /// envelope that names no version is a format failure with the analyzer's
    /// message.
    fn decrypt(&self, ciphertext: &str, key: &KeyResponse) -> (r: Result<
        ClientDecryptResultSuccess,
        ClientDecryptResultFailure,
    >) {
        match self.analyzer.get_version(ciphertext) {
            Err(m) => {
                proof {
                    reveal_strlit("Unknown client version: ");
                }
                Err(
                ClientDecryptResultFailure {
                    kind: ErrorKind::Format,
                    error_message: m,
                    hint: String::new(),
                    filename: String::new(),
                },
            )
            },
            Ok(ClientVersion::V1) => self.v1_client.decrypt(ciphertext, key),
            Ok(ClientVersion::V2) => self.v2_client.decrypt(ciphertext, key),
            Ok(ClientVersion::V3) => self.v3_client.decrypt(ciphertext, key),
        }
    }
}

} // verus!
