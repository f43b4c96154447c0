//! What the host is told at its start, and how its server can fail.

use vstd::prelude::*;

verus! {

/// What the host is told at its start.
#[derive(Clone, Debug, PartialEq, Eq)]
pub struct Config {
    pub net_config: NetConfig,
    pub mem_config: MemConfig,
}

/// What the relay of the game's own traffic is told.
#[derive(Clone, Debug, PartialEq, Eq)]
pub struct NetConfig {
    /// The name of the network interface to listen on.
    pub interface: String,
    /// The host whose traffic is left out.
    pub hostname_exclude: String,
    /// The address on which clients are served.
    pub bind_address: String,
}

/// What the memory server is told.
#[derive(Clone, Debug, PartialEq, Eq)]
pub struct MemConfig {
    /// The address on which clients are served.
    pub bind_address: String,
}

/// Why the memory server ended.
#[derive(Clone, Debug, PartialEq, Eq)]
pub enum ServerError {
    /// The socket could not be bound to this address.
    Binding(String),
}

impl ServerError {
    /// The address that could not be bound.
    pub fn address(&self) -> (address: &String)
        ensures
            *self == ServerError::Binding(*address),
    {
        match self {
            ServerError::Binding(address) => address,
        }
    }
}

} // verus!
