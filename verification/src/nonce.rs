//! Nonce MSB values for the two directions of a connection
use vstd::prelude::*;

verus! {

/// Client to server nonce MSB
pub const CLIENT_SERVER: u8 = 0;

/// Server to client nonce MSB
pub const SERVER_CLIENT: u8 = 1;

} // verus!
