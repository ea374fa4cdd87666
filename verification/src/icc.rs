//! The instruction-cache controller covering the flash region.
//!
//! The cache must be disabled around any flash page erase or write and
//! re-enabled afterwards, so later reads observe fresh bytes; the store
//! demands a disabled controller for every slot write.

use vstd::prelude::*;

verus! {

/// Instruction cache controller
pub struct Icc {
    enabled: bool,
}

impl Icc {
    /// Whether the cache is currently enabled.
    pub closed spec fn spec_enabled(self) -> bool {
        self.enabled
    }

    /// A controller in the enabled state, as the decoder runs with.
    pub fn new_enabled() -> (r: Icc)
        ensures
            r.spec_enabled(),
    {
        Icc { enabled: true }
    }

    /// Enables the instruction cache.
    pub fn enable(&mut self)
        ensures
            final(self).spec_enabled(),
    {
        self.enabled = true;
    }

    /// Disables the instruction cache.
    pub fn disable(&mut self)
        ensures
            !final(self).spec_enabled(),
    {
        self.enabled = false;
    }
}

} // verus!
