//! Small helpers shared by firmware code.

use vstd::prelude::*;

verus! {

/// The 64-bit value with only bit `x` set.
pub fn bit(x: u64) -> (r: u64)
    requires
        x < 64,
    ensures
        r == 1u64 << x,
{
    1u64 << x
}

} // verus!
