//! The provider proxy: takes Responses requests, puts them to a chat completion upstream, and
//! turns what comes back into Responses answers.
use vstd::prelude::*;

pub mod content;
pub mod converter;
pub mod converter_laws;
pub mod feed_laws;
pub mod finish_laws;
pub mod http;
pub mod message_laws;
pub mod reasoning_laws;
pub mod reply;
pub mod reply_laws;
pub mod request;
pub mod request_laws;
pub mod run_laws;
pub mod service_laws;
pub mod session;
pub mod sse;
pub mod stage;
pub mod stream;
pub mod stream_laws;
pub mod tools;
pub mod toolset;
pub mod toolset_laws;
pub mod upstream;
pub mod usage;

verus! {

/// One provider daemon: whom it serves, and with which model.
#[derive(Debug, PartialEq, Eq)]
pub struct ProxyConfig {
    pub provider_name: String,
    pub upstream_base: String,
    pub api_key: String,
    pub model_slug: String,
}

impl Clone for ProxyConfig {
    fn clone(&self) -> (copy: Self)
        ensures
            copy == *self,
    {
        ProxyConfig {
            provider_name: self.provider_name.clone(),
            upstream_base: self.upstream_base.clone(),
            api_key: self.api_key.clone(),
            model_slug: self.model_slug.clone(),
        }
    }
}

} // verus!
