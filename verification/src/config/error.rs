//! Why a configuration was turned down.

use vstd::prelude::*;
use super::Replica;

verus! {

/// The first defect found in a configuration.
#[derive(Debug, Clone, PartialEq, Eq)]
pub enum ParseError {
    /// A map is keyed by an id that no replica of the cluster has.
    InvalidMapEntry(Replica),
    /// The address map should hold the first number of entries and holds the
    /// second.
    InvalidMapLen(usize, usize),
    /// The first number of faults cannot be tolerated by a cluster of the
    /// second number of replicas.
    IncorrectFaults(usize, usize),
    /// A public key has this many bytes, which the signature scheme does not
    /// allow.
    InvalidPkSize(usize),
    /// The secret key has this many bytes, which the signature scheme does
    /// not allow.
    InvalidSkSize(usize),
    /// The named signature scheme is not available.
    Unimplemented(&'static str),
}

} // verus!
