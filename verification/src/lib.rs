//! Verified core of a rhythm "bullet hell" game: keyboard direction
//! resolution, the level-select menu, what key presses do to the scenes, the
//! chart scheduler, enemy lifetimes and groups, MIDI note extraction and the
//! chart-file vocabulary.

pub mod util;
pub mod keyboard;
pub mod chart;
pub mod level;
pub mod midi;
pub mod parse;
pub mod scene;
pub mod enemy;
