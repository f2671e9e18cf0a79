//! Packet type constants
use vstd::prelude::*;

verus! {

/// Heartbeat packet type
pub const HEARTBEAT: u8 = 254;

/// Initial payload packet type
pub const INITIAL_PAYLOAD: u8 = 253;

/// Initial response packet type
pub const INITIAL_RESPONSE: u8 = 252;

} // verus!
