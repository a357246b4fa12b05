//! The CG-gallery section of the extra configuration.
use vstd::prelude::*;

verus! {

/// How many CG images the player has unlocked.
pub struct CgConfig {
    cg: u64,
}

impl CgConfig {
    /// A gallery section with `cg` unlocked images.
    pub fn new(cg: u64) -> (r: Self)
        ensures
            r.count() == cg,
    {
        CgConfig { cg }
    }

    /// The number of unlocked images, as a spec value.
    pub closed spec fn count(&self) -> u64 {
        self.cg
    }

    /// The number of unlocked images.
    pub fn cg(&self) -> (r: u64)
        ensures
            r == self.count(),
    {
        self.cg
    }
}

} // verus!
