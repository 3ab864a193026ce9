//! The client's state and everything the keyboard can do to it.

pub mod bars;
pub mod caret;
pub mod choosing;
pub mod composer;
pub mod config;
pub mod doctor;
pub mod drawing;
pub mod emoji;
pub mod glyphs;
pub mod graphemes;
pub mod keymap;
pub mod laws;
pub mod mentions;
pub mod palette;
pub mod screen;
pub mod settings;
pub mod state;
