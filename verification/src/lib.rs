//! Core of a client for a text-framed publish/subscribe broker: the wire
//! codec, server address handling, the connection handshake and the state
//! shared between the workers, with contracts proved by Verus.

pub mod broker;
pub mod channel;
pub mod connect;
pub mod decimal;
pub mod decoder;
pub mod encoder;
pub mod error;
pub mod handshake;
pub mod info;
pub mod json;
pub mod lifecycle;
pub mod outbound;
pub mod plan;
pub mod pongs;
pub mod server;
pub mod shared_state;
pub mod subs;
pub mod text;
