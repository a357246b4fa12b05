//! What the engine plays: background music and videos.
pub mod player;
pub mod video_player;
