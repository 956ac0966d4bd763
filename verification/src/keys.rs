//! Endpoint keys.
use vstd::prelude::*;

use crate::curve::{
    basepoint_multiple, is_edwards_point, multiples_differ, public_key_of_seed,
    scales_as_base_multiple, seed_scalar,
};

verus! {

/// The secret key of an endpoint: an ed25519 seed.
pub struct SecretKey {
    seed: [u8; 32],
}

impl SecretKey {
    /// The seed.
    pub closed spec fn seed(&self) -> Seq<u8> {
        self.seed@
    }

    /// The public key that belongs to this secret key.
    pub open spec fn public_key(&self) -> Seq<u8> {
        basepoint_multiple(seed_scalar(self.seed()))
    }

    /// A secret key from its bytes.
    pub fn from_bytes(bytes: &[u8; 32]) -> (secret: SecretKey)
        ensures
            secret.seed() == bytes@,
    {
        SecretKey { seed: *bytes }
    }

    /// The bytes of the secret key.
    pub fn to_bytes(&self) -> (bytes: [u8; 32])
        ensures
            bytes@ == self.seed(),
    {
        self.seed
    }

    /// The public key, which is also the id of the endpoint.
    ///
    /// It is a point of the curve, scaling it scales the base point, and unless
    /// the secret scalar is zero no two scalars scale it to the same point.
    pub fn public(&self) -> (public: [u8; 32])
        ensures
            public@ == self.public_key(),
            public@ == basepoint_multiple(seed_scalar(self.seed())),
            is_edwards_point(public@),
            scales_as_base_multiple(public@, seed_scalar(self.seed())),
            seed_scalar(self.seed()) != 0 ==> multiples_differ(public@),
    {
        public_key_of_seed(&self.seed)
    }
}

} // verus!
