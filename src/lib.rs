//! A minimal text relay: the wire codec, the per-connection session rules,
//! the registry of live sessions and the client-side message handling.

pub mod client;
pub mod codec;
pub mod registry;
pub mod session;
