//! A replica's view of its cluster: who takes part, how many faults are
//! tolerated, where everyone listens and which keys they sign with.

use vstd::prelude::*;

pub mod address;
pub mod error;
pub mod node;

pub use error::ParseError;

verus! {

/// The identity of a replica: its index in the cluster.
pub type Replica = u16;

/// Whether `r` names a replica of a cluster of `n`.
pub open spec fn spec_is_valid_replica(r: Replica, n: usize) -> bool {
    r < n
}

/// Whether `r` names a replica of a cluster of `n`.
#[verifier::when_used_as_spec(spec_is_valid_replica)]
pub fn is_valid_replica(r: Replica, n: usize) -> (valid: bool)
    ensures
        valid == spec_is_valid_replica(r, n),
{
    n > r as usize
}

} // verus!
