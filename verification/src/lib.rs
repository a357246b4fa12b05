//! Script and configuration model of a visual-novel engine.
pub mod config;
pub mod error;
pub mod executor;
pub mod media;
pub mod script;
