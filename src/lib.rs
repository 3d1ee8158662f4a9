//! Client-side codecs and session logic for three game-server protocols:
//! the TCP status ping, the UDP query protocol and the TCP remote console
//! (RCON).
//!
//! Everything here works on plain values and byte buffers; sockets, timers
//! and JSON decoding are left to the caller.

pub mod decimal;
pub mod errors;
pub mod packet;
pub mod query;
pub mod rcon;
pub mod status;
pub mod varint;
pub mod wire;
