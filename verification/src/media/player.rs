//! Background-music decisions.
use vstd::prelude::*;

verus! {

/// What to do with the background music when the story jumps to a block.
#[derive(Debug, Clone, PartialEq, Eq)]
pub enum PreBgm {
    /// Start playing this track.
    Play(String),
    /// No track was set up to the block: stop the music.
    Stop,
    /// The right track is already playing: leave it.
    Keep,
}

} // verus!
