//! The remote console (RCON) protocol: authenticated command execution over
//! TCP.

pub mod client;
pub mod packet;

use vstd::prelude::*;

verus! {

/// The longest payload a server sends in one packet.
pub const MAX_LEN_CLIENTBOUND: usize = 4096;

/// The longest payload a client may send in one packet.
pub const MAX_LEN_SERVERBOUND: usize = 1446;

} // verus!
