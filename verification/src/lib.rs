//! Finger load of a keyboard layout.
//!
//! Given a layout (which physical key produces which symbols, and which
//! symbols are composed through a dead key) and a corpus (how often each
//! symbol is typed), the crate works out how much typing falls on each of the
//! nine fingers, how much of the corpus cannot be typed at all, and how much
//! was counted twice because it takes two key strokes.

pub mod text;
pub mod finger;
pub mod layout;
pub mod fingering;
pub mod weight;
pub mod load;
pub mod document;
pub mod json_value;
