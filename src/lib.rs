//! Client side of Oblivious DNS-over-HTTPS: building and encrypting DNS
//! queries for a resolver's published key, routing them through an optional
//! relay, and opening the bound response.
pub mod config;
pub mod dns;
pub mod error;
pub mod protocol;
pub mod session;
pub mod transport;
pub mod wire;
