//! Where the devicetree came from.

use vstd::prelude::*;

verus! {

/// Sources of the devicetree, roughly in order of desirability after `None`.
#[derive(Debug, Clone, Copy, PartialEq, Eq, Structural)]
pub enum FdtSource {
    /// Appended to the firmware image.
    Separate,
    /// Found in a multi-dtb FIT.
    Fit,
    /// Located by custom board code.
    Board,
    /// Embedded into the firmware executable.
    Embed,
    /// Provided by an environment variable; for debugging only.
    Env,
    /// No devicetree at all.
    NoDevicetree,
}

} // verus!
