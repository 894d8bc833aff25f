//! Time-locked encryption envelopes: plaintext is encrypted chunk by chunk
//! with the public key that a key-release service publishes for a lockdate,
//! and wrapped in a versioned, colon-delimited envelope. The private key is
//! released by the service only once the lockdate has passed.
//!
//! Talking to the service is left to the caller: a client says which
//! lockdate's key it needs, and takes the service's answer as a `KeyResponse`.

pub mod chunk_cipher;
pub mod client;
pub mod config;
pub mod encoding;
pub mod envelope;
pub mod factory;
pub mod fields;
pub mod key_service;
pub mod lockdate;
pub mod text;
pub mod v1_client;
pub mod v2_client;
pub mod v3_client;
pub mod version;
pub mod version_selector_client;

pub use client::{
    Client, ClientEncryptArg, ClientDecryptResultSuccess, ClientDecryptResultFailure, ClientError,
    ErrorKind, KeyResponse,
};
pub use config::{Config, DefaultConfig};
pub use factory::{AnalyzerFactory, ConfigFactory, ClientFactory};
pub use lockdate::Lockdate;
pub use v1_client::V1Client;
pub use v2_client::V2Client;
pub use v3_client::V3Client;
pub use version::{Analyzer, ClientVersion, DefaultAnalyzer};
pub use version_selector_client::VersionSelectorClient;
