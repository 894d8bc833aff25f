//! Builders of analyzers, configurations and clients.

use vstd::prelude::*;
use crate::config::{Config, DefaultConfig};
use crate::version::DefaultAnalyzer;
use crate::v1_client::V1Client;
use crate::v2_client::V2Client;
use crate::v3_client::V3Client;
use crate::version_selector_client::VersionSelectorClient;

verus! {

/// Builds analyzers.
pub struct AnalyzerFactory {}

impl AnalyzerFactory {
    pub fn new() -> (r: AnalyzerFactory) {
        AnalyzerFactory {}
    }

    pub fn create(&self) -> (r: DefaultAnalyzer) {
        DefaultAnalyzer::new()
    }
}

/// Builds configurations.
pub struct ConfigFactory {}

impl ConfigFactory {
    pub fn new() -> (r: ConfigFactory) {
        ConfigFactory {}
    }

    pub fn create(&self) -> (r: DefaultConfig)
        ensures
            r.api_url_spec() == "https://api.snailcrypt.com"@,
    {
        DefaultConfig::new()
    }
}

/// Builds clients that share an analyzer and a configuration.
pub struct ClientFactory {
    analyzer: DefaultAnalyzer,
    config: DefaultConfig,
}

impl ClientFactory {
    pub fn new(analyzer: DefaultAnalyzer, config: DefaultConfig) -> (r: ClientFactory)
        ensures
            r.analyzer_spec() == analyzer,
            r.config_spec() == config,
    {
        ClientFactory { analyzer, config }
    }

    pub closed spec fn analyzer_spec(self) -> DefaultAnalyzer {
        self.analyzer
    }

    pub closed spec fn config_spec(self) -> DefaultConfig {
        self.config
    }

    /// A client that picks the version by itself, whose clients of each
    /// version share this factory's analyzer and the address of its service.
    pub fn create(&self) -> (r: VersionSelectorClient)
        ensures
            r.analyzer_spec() == self.analyzer_spec(),
            r.clients_spec().0.config_spec().api_url_spec() == self.config_spec().api_url_spec(),
            r.clients_spec().1.config_spec().api_url_spec() == self.config_spec().api_url_spec(),
            r.clients_spec().2.config_spec().api_url_spec() == self.config_spec().api_url_spec(),
            r.clients_spec().0.analyzer_spec() == self.analyzer_spec(),
    {
        let url = self.config.get_api_url();
        VersionSelectorClient::new(
            self.analyzer,
            V1Client::new(self.analyzer, DefaultConfig::with_api_url(url)),
            V2Client::new(self.analyzer, DefaultConfig::with_api_url(url)),
            V3Client::new(self.analyzer, DefaultConfig::with_api_url(url)),
        )
    }

    pub fn get_analyzer(&self) -> (r: &DefaultAnalyzer)
        ensures
            *r == self.analyzer_spec(),
    {
        &self.analyzer
    }

    pub fn get_config(&self) -> (r: &DefaultConfig)
        ensures
            *r == self.config_spec(),
    {
        &self.config
    }
}

} // verus!
