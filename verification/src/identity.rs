use vstd::prelude::*;
use std::hash::Hasher;
use siphasher::sip128::Hasher128;
use siphasher::sip128::SipHasher13;

verus! {

/// The 128-bit value that the fixed-seed hash assigns to a file handle key.
/// It is a function of the two halves of the key alone, the same in every
/// process and on every machine.
pub uninterp spec fn sip128_of(dev: u64, ino: u64) -> u128;

/// Relies on siphasher's `SipHasher13` with the default (zero) keys: feeding
/// the two values and finishing yields a 128-bit hash that depends on them
/// alone.
#[verifier::external_body]
fn sip128_pair(dev: u64, ino: u64) -> (r: u128)
    ensures
        r == sip128_of(dev, ino),
{
    let mut state = SipHasher13::new();
    state.write_u64(dev);
    state.write_u64(ino);
    state.finish128().as_u128()
}

/// A stable identity for a filesystem entity, computed from the device and
/// inode pair of its opened handle.  Two paths that reach the same entity
/// yield the same pair and so the same identity, whatever text they used.
pub fn path_hash(dev: u64, ino: u64) -> (r: u128)
    ensures
        r == sip128_of(dev, ino),
{
    sip128_pair(dev, ino)
}

} // verus!
