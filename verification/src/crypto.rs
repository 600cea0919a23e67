//! The signature schemes a cluster can be configured with, and the key
//! sizes each of them fixes.

use vstd::prelude::*;

verus! {

/// Bytes of an Ed25519 public key.
pub const ED25519_PK_SIZE: usize = 32;

/// Bytes of an Ed25519 key pair in its stored form (seed and public key).
pub const ED25519_PVT_SIZE: usize = 64;

/// Bytes of a compressed secp256k1 public key.
pub const SECP256K1_PK_SIZE: usize = 33;

/// Bytes of a secp256k1 secret key.
pub const SECP256K1_PVT_SIZE: usize = 32;

/// The signature scheme in force for a cluster.
#[derive(Debug, Clone, Copy, PartialEq, Eq, Structural)]
pub enum Algorithm {
    ED25519,
    SECP256K1,
    /// Recognised, but no replica can run with it.
    RSA,
}

impl Algorithm {
    /// The size every public key must have under this scheme, if the scheme
    /// is available.
    pub open spec fn spec_public_key_size(self) -> Option<usize> {
        match self {
            Algorithm::ED25519 => Some(ED25519_PK_SIZE),
            Algorithm::SECP256K1 => Some(SECP256K1_PK_SIZE),
            Algorithm::RSA => None,
        }
    }

    /// The size the replica's own secret key must have under this scheme, if
    /// the scheme is available.
    pub open spec fn spec_secret_key_size(self) -> Option<usize> {
        match self {
            Algorithm::ED25519 => Some(ED25519_PVT_SIZE),
            Algorithm::SECP256K1 => Some(SECP256K1_PVT_SIZE),
            Algorithm::RSA => None,
        }
    }

    /// Whether a replica can run with this scheme.
    pub open spec fn spec_is_implemented(self) -> bool {
        self != Algorithm::RSA
    }

    #[verifier::when_used_as_spec(spec_public_key_size)]
    pub fn public_key_size(self) -> (size: Option<usize>)
        ensures
            size == self.spec_public_key_size(),
    {
        match self {
            Algorithm::ED25519 => Some(ED25519_PK_SIZE),
            Algorithm::SECP256K1 => Some(SECP256K1_PK_SIZE),
            Algorithm::RSA => None,
        }
    }

    #[verifier::when_used_as_spec(spec_secret_key_size)]
    pub fn secret_key_size(self) -> (size: Option<usize>)
        ensures
            size == self.spec_secret_key_size(),
    {
        match self {
            Algorithm::ED25519 => Some(ED25519_PVT_SIZE),
            Algorithm::SECP256K1 => Some(SECP256K1_PVT_SIZE),
            Algorithm::RSA => None,
        }
    }

    #[verifier::when_used_as_spec(spec_is_implemented)]
    pub fn is_implemented(self) -> (yes: bool)
        ensures
            yes == self.spec_is_implemented(),
    {
        match self {
            Algorithm::RSA => false,
            _ => true,
        }
    }
}

} // verus!
