//! Mirrors the state of a running game process to remote observers: signature
//! scanning and pointer-chain reading on the host, a framed and sequenced
//! datagram protocol between host and clients, and a mirror of the game's
//! memory layout on the client.

pub mod bytes;
pub mod combatant;
pub mod config;
pub mod mirror;
pub mod models;
pub mod packets;
pub mod reader;
pub mod signature;
pub mod transport;
pub mod utils;
