//! The source of randomness: uniform 32-bit draws turned into scalars.

use vstd::prelude::*;
use crate::scalar::ONE;

verus! {

/// The scalar in `[0, ONE)` that a 32-bit draw stands for: the draw read as
/// a fraction of `2^32`.
pub open spec fn unit_of_bits(bits: u32) -> i64 {
    ((bits as int * ONE as int) / 0x1_0000_0000) as i64
}

/// One uniformly distributed 32-bit draw from `rand::random`, which takes it
/// from the thread-local generator. Nothing is claimed of the value: two
/// calls may differ.
#[verifier::external_body]
pub(crate) fn random_bits() -> (bits: u32) {
    rand::random::<u32>()
}

/// Maps a 32-bit draw to a scalar in `[0, ONE)`.
pub fn unit_from_bits(bits: u32) -> (r: i64)
    ensures
        r == unit_of_bits(bits),
        0 <= r < ONE,
{
    let wide: u64 = (bits as u64) * 1_000_000_000;
    (wide / 0x1_0000_0000) as i64
}

/// A random scalar in `[0, ONE)`.
pub fn random_unit() -> (r: i64)
    ensures
        0 <= r < ONE,
{
    unit_from_bits(random_bits())
}

} // verus!
