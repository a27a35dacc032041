//! Frame-synchronised visuals driven by musical performance events.
//!
//! Chord bars, drum hits and revealable text keep a small runtime state that
//! events update and every frame ages; a software rasteriser composites that
//! state into a packed 24-bit pixel grid.

pub mod graphics;
pub mod midi;
pub mod drum;
pub mod text;
pub mod chord;
pub mod win;
pub mod setup;
pub mod gui;
pub mod editor;
pub mod frame;
