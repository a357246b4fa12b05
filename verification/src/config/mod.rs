//! Engine configuration: where the game's resources live.
pub mod cg;
pub mod extra;
pub mod initialize;

use vstd::prelude::*;

use crate::config::initialize::{Character, InitializeConfig};

verus! {

/// The engine's configuration, as read from its configuration file.
pub struct EngineConfig {
    initialize: InitializeConfig,
    character: Character,
}

impl EngineConfig {
    /// Makes a configuration from its two sections.
    pub fn new(initialize: InitializeConfig, character: Character) -> (r: Self)
        ensures
            r.initialize_section() == initialize,
            r.character_section() == character,
    {
        EngineConfig { initialize, character }
    }

    /// The `[initialize]` section: resource directories.
    pub closed spec fn initialize_section(&self) -> InitializeConfig {
        self.initialize
    }

    /// The `[character]` section.
    pub closed spec fn character_section(&self) -> Character {
        self.character
    }

    /// The `[initialize]` section.
    pub fn initialize(&self) -> (r: &InitializeConfig)
        ensures
            *r == self.initialize_section(),
    {
        &self.initialize
    }

    /// The `[character]` section.
    pub fn character(&self) -> (r: &Character)
        ensures
            *r == self.character_section(),
    {
        &self.character
    }

    /// Directory of the script files.
    pub fn script_path(&self) -> (r: &str)
        ensures
            r@ == self.initialize_section().script_path@,
    {
        self.initialize.script_path.as_str()
    }

    /// Directory of the background images.
    pub fn background_path(&self) -> (r: &str)
        ensures
            r@ == self.initialize_section().background_path@,
    {
        self.initialize.background_path.as_str()
    }

    /// Directory of the CG images.
    pub fn cg_path(&self) -> (r: &str)
        ensures
            r@ == self.initialize_section().cg_path@,
    {
        self.initialize.cg_path.as_str()
    }

    /// Directory of the voice clips.
    pub fn voice_path(&self) -> (r: &str)
        ensures
            r@ == self.initialize_section().voice_path@,
    {
        self.initialize.voice_path.as_str()
    }

    /// Directory of the background music.
    pub fn bgm_path(&self) -> (r: &str)
        ensures
            r@ == self.initialize_section().bgm_path@,
    {
        self.initialize.bgm_path.as_str()
    }

    /// Directory of the videos.
    pub fn video_path(&self) -> (r: &str)
        ensures
            r@ == self.initialize_section().video_path@,
    {
        self.initialize.video_path.as_str()
    }

    /// Directory of the character figures.
    pub fn figure_path(&self) -> (r: &str)
        ensures
            r@ == self.initialize_section().figure_path@,
    {
        self.initialize.figure_path.as_str()
    }

    /// Directory of the save files.
    pub fn save_path(&self) -> (r: &str)
        ensures
            r@ == self.initialize_section().save_path@,
    {
        self.initialize.save_path.as_str()
    }
}

} // verus!
