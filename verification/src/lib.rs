//! Verified core of a small soundboard: the sound library and its sets,
//! the voice-connection decisions of the bot, and the text helpers that
//! the web interface needs.

pub mod text;
pub mod model;
pub mod slots;
pub mod library;
pub mod voice;
pub mod ui;
