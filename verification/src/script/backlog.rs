//! One line of the back-log: what was said, by whom, and where.
use vstd::prelude::*;

verus! {

/// A line of dialogue as kept in the back-log.
#[derive(Debug, PartialEq, Eq)]
pub struct BackLogItem {
    /// The speaker's name.
    pub front: String,
    /// The text that was said.
    pub back: String,
    /// The script the line belongs to.
    pub script: String,
    /// The block of the script at which it was said.
    pub index: i32,
    /// The character whose voice clip goes with the line.
    pub chara: String,
    /// The voice clip.
    pub voice: String,
}

impl Clone for BackLogItem {
    /// An equal copy of the line.
    fn clone(&self) -> (r: Self)
        ensures
            r == *self,
    {
        BackLogItem {
            front: self.front.clone(),
            back: self.back.clone(),
            script: self.script.clone(),
            index: self.index,
            chara: self.chara.clone(),
            voice: self.voice.clone(),
        }
    }
}

} // verus!
