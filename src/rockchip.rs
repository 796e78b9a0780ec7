//! Rockchip SoC definitions.

use vstd::prelude::*;

verus! {

/// The 32-bit value with only bit `nr` set.
pub fn bit(nr: u32) -> (r: u32)
    requires
        nr < 32,
    ensures
        r == 1u32 << nr,
{
    1u32 << nr
}

} // verus!
