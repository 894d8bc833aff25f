//! Where the key-release service is found.

use vstd::prelude::*;

verus! {

/// The address of the key-release service.
pub trait Config {
    /// The base URL of the service's API, as seen in specifications.
    spec fn api_url_spec(&self) -> Seq<char>;

    /// The base URL of the service's API.
    fn get_api_url(&self) -> (r: &str)
        ensures
            r@ == self.api_url_spec(),
    ;
}

/// The public key-release service.
#[derive(Clone)]
pub struct DefaultConfig {
    api_url: String,
}

impl DefaultConfig {
    pub fn new() -> (r: DefaultConfig)
        ensures
            r.api_url_spec() == "https://api.snailcrypt.com"@,
    {
        DefaultConfig { api_url: String::from_str("https://api.snailcrypt.com") }
    }

    /// The service found at `api_url`.
    pub fn with_api_url(api_url: &str) -> (r: DefaultConfig)
        ensures
            r.api_url_spec() == api_url@,
    {
        DefaultConfig { api_url: String::from_str(api_url) }
    }
}

impl Config for DefaultConfig {
    closed spec fn api_url_spec(&self) -> Seq<char> {
        self.api_url@
    }

    fn get_api_url(&self) -> (r: &str) {
        self.api_url.as_str()
    }
}

} // verus!
