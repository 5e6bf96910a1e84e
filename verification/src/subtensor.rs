//! The chain's public entry points.

use vstd::prelude::*;

verus! {

/// A well-known node to connect to.
#[derive(Clone, Copy, Debug, PartialEq, Eq, Structural)]
pub enum SubtensorUrl {
    /// The main network.
    Finney,
    /// The main network's archive node, which keeps all history.
    Archive,
    /// The test network.
    Test,
    /// A node on this machine.
    Local,
}

impl SubtensorUrl {
    /// The node's WebSocket address.
    pub open spec fn url(self) -> Seq<char> {
        match self {
            SubtensorUrl::Finney => "wss://entrypoint-finney.opentensor.ai:443"@,
            SubtensorUrl::Archive => "wss://archive.chain.opentensor.ai:443/"@,
            SubtensorUrl::Test => "wss://test.finney.opentensor.ai:443/"@,
            SubtensorUrl::Local => "ws://127.0.0.1:9944"@,
        }
    }
}

impl AsRef<str> for SubtensorUrl {
    fn as_ref(&self) -> (url: &str)
        ensures
            url@ == self.url(),
    {
        match self {
            SubtensorUrl::Finney => "wss://entrypoint-finney.opentensor.ai:443",
            SubtensorUrl::Archive => "wss://archive.chain.opentensor.ai:443/",
            SubtensorUrl::Test => "wss://test.finney.opentensor.ai:443/",
            SubtensorUrl::Local => "ws://127.0.0.1:9944",
        }
    }
}

} // verus!
