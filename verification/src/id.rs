//! Connection identifiers: opaque 128-bit values generated freshly for each
//! accepted or opened connection.

use vstd::prelude::*;

verus! {

/// Uniquely identifies a single network connection.
#[derive(Debug, Clone, Copy, Eq, Hash, Ord, PartialEq, PartialOrd, Structural)]
pub struct ConnectionId(pub u128);

/// Relies on uuid::Uuid::new_v4 for a freshly generated random 128-bit value;
/// nothing can be promised of a random result.
#[verifier::external_body]
fn fresh_id_bits() -> u128 {
    uuid::Uuid::new_v4().as_u128()
}

impl ConnectionId {
    /// A freshly generated identifier for a new connection.
    pub fn new() -> ConnectionId {
        ConnectionId(fresh_id_bits())
    }
}

} // verus!
