//! The Exa adapter: web search.

use vstd::prelude::*;
use vstd::string::*;

pub mod web_search;

verus! {

/// The address of the service.
pub const BASE_URL: &'static str = "https://api.exa.ai";

/// Which service to talk to.
#[derive(Debug)]
pub struct ExaConfig {
    pub api_key: String,
    pub base_url: String,
}

impl Clone for ExaConfig {
    fn clone(&self) -> (r: Self)
        ensures
            r.api_key@ == self.api_key@,
            r.base_url@ == self.base_url@,
    {
        ExaConfig { api_key: self.api_key.clone(), base_url: self.base_url.clone() }
    }
}

impl ExaConfig {
    pub fn new(api_key: &str) -> (r: Self)
        ensures
            r.api_key@ == api_key@,
            r.base_url@ == BASE_URL@,
    {
        ExaConfig { api_key: api_key.to_owned(), base_url: BASE_URL.to_owned() }
    }

    pub fn with_base_url(self, base_url: &str) -> (r: Self)
        ensures
            r.api_key == self.api_key,
            r.base_url@ == base_url@,
    {
        ExaConfig { api_key: self.api_key, base_url: base_url.to_owned() }
    }
}

} // verus!
