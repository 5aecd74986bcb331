//! The window-management logic of a Wayland compositor: tiling layouts,
//! configuration defaults, keybinding resolution, output bookkeeping and the
//! small decisions that the event loop takes.

pub mod geometry;
pub mod config;
pub mod layout;
pub mod text;
pub mod tiling;
pub mod input;
pub mod utils;
pub mod output;
pub mod render;
pub mod shell;
pub mod state;
pub mod laws;
pub mod fitting;
pub mod properties;
