//! Decoded wallpaper pixels.

use vstd::prelude::*;

verus! {

/// A decoded image: its size and its pixels as RGBA bytes, row by row.
#[derive(Debug, Clone)]
pub struct WallpaperData {
    pub width: u32,
    pub height: u32,
    pub rgba: Vec<u8>,
}

} // verus!
