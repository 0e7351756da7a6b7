//! The client's configuration: where the service lives and the credential
//! that every request carries.

use vstd::prelude::*;

verus! {

/// The base address of the service and the access credential. Both are
/// fixed when the proxy is made and only read afterwards, so that one proxy
/// serves any number of calls.
pub struct LegiscanProxy {
    base_url: String,
    api_key: String,
}

/// A `LegiscanProxy` with its texts as character sequences.
pub struct ProxyView {
    pub base_url: Seq<char>,
    pub api_key: Seq<char>,
}

impl View for LegiscanProxy {
    type V = ProxyView;

    closed spec fn view(&self) -> ProxyView {
        ProxyView { base_url: self.base_url@, api_key: self.api_key@ }
    }
}

impl LegiscanProxy {
    /// A proxy for the service at `base_url`, with `api_key` as credential.
    pub fn new(base_url: String, api_key: String) -> (proxy: LegiscanProxy)
        ensures
            proxy@ == (ProxyView { base_url: base_url@, api_key: api_key@ }),
    {
        LegiscanProxy { base_url, api_key }
    }

    /// The base address of the service.
    pub fn base_url(&self) -> (text: &str)
        ensures
            text@ == self@.base_url,
    {
        self.base_url.as_str()
    }

    /// The access credential.
    pub fn api_key(&self) -> (text: &str)
        ensures
            text@ == self@.api_key,
    {
        self.api_key.as_str()
    }
}

} // verus!
