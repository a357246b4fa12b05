//! The sections of the engine's configuration file.
use std::collections::HashSet;

use vstd::prelude::*;

verus! {

/// Directories in which each kind of resource is found.
pub struct InitializeConfig {
    pub script_path: String,
    pub background_path: String,
    pub cg_path: String,
    pub voice_path: String,
    pub bgm_path: String,
    pub video_path: String,
    pub figure_path: String,
    pub save_path: String,
}

/// The names of the characters of the game.
pub struct Character {
    pub list: HashSet<String>,
}

} // verus!
