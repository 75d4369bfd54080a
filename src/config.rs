//! The client's settings: the target resolver and the optional relay.
use vstd::prelude::*;

verus! {

/// The resolver used when no other is configured.
pub const DEFAULT_TARGET: &'static str = "https://odoh.cloudflare-dns.com";

/// The relay used when no other is configured.
pub const DEFAULT_PROXY: &'static str = "https://ibksturm.synology.me/proxy";

/// All settings of the client.
#[derive(Clone, Debug)]
pub struct Config {
    pub server: Server,
}

/// Where queries go: the target resolver's base URL, and the relay's, if any.
#[derive(Clone, Debug)]
pub struct Server {
    pub proxy: Option<String>,
    pub target: String,
}

impl Server {
    /// Whether these are the default settings.
    pub open spec fn is_default(&self) -> bool {
        &&& self.target@ == DEFAULT_TARGET@
        &&& self.proxy matches Some(p) && p@ == DEFAULT_PROXY@
    }
}

impl Default for Server {
    fn default() -> (r: Self)
        ensures
            r.is_default(),
    {
        Server { proxy: Some(DEFAULT_PROXY.to_owned()), target: DEFAULT_TARGET.to_owned() }
    }
}

impl Default for Config {
    fn default() -> (r: Self)
        ensures
            r.server.is_default(),
    {
        Config { server: Server::default() }
    }
}

impl Config {
    /// The default settings.
    pub fn new() -> (r: Self)
        ensures
            r.server.is_default(),
    {
        Self::default()
    }
}

} // verus!
