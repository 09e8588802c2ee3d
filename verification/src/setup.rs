//! Where a test client finds a locally running node.

use vstd::prelude::*;

verus! {

/// Mathematical model of a client endpoint.
pub ghost struct ConfigView {
    pub host: Seq<char>,
    pub port: u16,
}

/// The endpoint a client connects to: a host and a port.
#[derive(Debug)]
pub struct Config {
    host: String,
    port: u16,
}

impl View for Config {
    type V = ConfigView;

    closed spec fn view(&self) -> ConfigView {
        ConfigView { host: self.host@, port: self.port }
    }
}

impl Config {
    /// The endpoint of a node running on this machine at the given port.
    pub fn attach_to_local_node(port: u16) -> (r: Config)
        ensures
            r@.host == "127.0.0.1"@,
            r@.port == port,
    {
        Config { host: "127.0.0.1".to_owned(), port }
    }

    /// The host part of the endpoint.
    pub fn host(&self) -> (r: &String)
        ensures
            r@ == self@.host,
    {
        &self.host
    }

    /// The port part of the endpoint.
    pub fn port(&self) -> (r: u16)
        ensures
            r == self@.port,
    {
        self.port
    }
}

} // verus!
