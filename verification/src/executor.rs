//! The state that the engine's executor keeps between events.
use vstd::prelude::*;

verus! {

/// The executor's own state: how many CG images are unlocked.
pub struct Executor {
    cg: u64,
}

impl Executor {
    /// An executor with `cg` unlocked images.
    pub fn new(cg: u64) -> (r: Self)
        ensures
            r.cg_count() == cg,
    {
        Executor { cg }
    }

    /// The number of unlocked images, as a spec value.
    pub closed spec fn cg_count(&self) -> u64 {
        self.cg
    }

    /// The number of unlocked images.
    pub fn cg(&self) -> (r: u64)
        ensures
            r == self.cg_count(),
    {
        self.cg
    }

    /// Records `cg` unlocked images.
    pub fn set_cg(&mut self, cg: u64)
        ensures
            final(self).cg_count() == cg,
    {
        self.cg = cg;
    }
}

} // verus!
