//! A stand-in identity: 32 random bytes in place of a public key.
use crate::entropy;
use vstd::prelude::*;

verus! {

/// An identity that is only a public key.
pub struct SkeletonIdentity {
    pub pubkey: [u8; 32],
}

impl SkeletonIdentity {
    /// An identity of the random bytes that the operating system gave.
    pub fn generate() -> (identity: Self)
        ensures
            entropy::os_gave(identity.pubkey),
    {
        Self::from_entropy(entropy::os_draw())
    }

    /// The identity of 32 bytes that a source of random bytes gave.
    pub fn from_entropy(entropy: [u8; 32]) -> (identity: Self)
        ensures
            identity.pubkey == entropy,
    {
        SkeletonIdentity { pubkey: entropy }
    }
}

} // verus!
