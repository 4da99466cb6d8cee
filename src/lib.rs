//! A handshake for point-to-point byte streams: the two ends exchange their identities
//! before they carry application payloads.

pub mod leb128;
pub mod peer;
pub mod message;
pub mod handshake;
