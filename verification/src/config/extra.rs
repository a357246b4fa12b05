//! The extra configuration: progress kept across play-throughs.
use vstd::prelude::*;
use vstd::string::*;

use crate::config::cg::CgConfig;
use crate::executor::Executor;

verus! {

/// Progress that survives between games, kept in `extra.toml`.
pub struct ExtraConfig {
    cg: CgConfig,
}

impl ExtraConfig {
    /// The extra configuration that records `cg` unlocked images.
    pub fn new(cg: u64) -> (r: Self)
        ensures
            r.cg_count() == cg,
    {
        ExtraConfig { cg: CgConfig::new(cg) }
    }

    /// The gallery section.
    pub closed spec fn gallery(&self) -> CgConfig {
        self.cg
    }

    /// The number of unlocked images, as a spec value.
    pub open spec fn cg_count(&self) -> u64 {
        self.gallery().count()
    }

    /// The number of unlocked images.
    pub fn cg(&self) -> (r: u64)
        ensures
            r == self.cg_count(),
    {
        self.cg.cg()
    }
}

impl Executor {
    /// Takes the number of unlocked images from the extra configuration.
    pub fn load_extra(&mut self, extra: &ExtraConfig)
        ensures
            final(self).cg_count() == extra.cg_count(),
    {
        self.set_cg(extra.cg());
    }
}

/// The file in which the extra configuration is kept, under the save directory.
pub fn extra_config_path(save_path: &str) -> (r: String)
    ensures
        r@ == save_path@ + "/extra.toml"@,
{
    let dir: String = save_path.to_owned();
    dir.concat("/extra.toml")
}

} // verus!
