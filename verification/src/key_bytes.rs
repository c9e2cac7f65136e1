//! Key bytes that do not stay in memory longer than they are used.
use vstd::prelude::*;

verus! {

/// Calls `zeroize::Zeroize::zeroize` on the bytes, which overwrites each with zero.
#[verifier::external_body]
fn erase(bytes: &mut [u8; 32])
    ensures
        final(bytes)@ == Seq::new(32, |i: int| 0u8),
    opens_invariants none
    no_unwind
{
    zeroize::Zeroize::zeroize(bytes)
}

/// The 32 bytes of a key. They are overwritten with zeros when the value is dropped.
pub struct KeyBytes {
    pub bytes: [u8; 32],
}

impl KeyBytes {
    /// Overwrites the key with zeros.
    pub fn wipe(&mut self)
        ensures
            final(self).bytes@ == Seq::new(32, |i: int| 0u8),
        opens_invariants none
        no_unwind
    {
        erase(&mut self.bytes);
    }
}

impl Drop for KeyBytes {
    fn drop(&mut self)
        ensures
            final(self).bytes@ == Seq::new(32, |i: int| 0u8),
        opens_invariants none
        no_unwind
    {
        self.wipe();
    }
}

} // verus!
