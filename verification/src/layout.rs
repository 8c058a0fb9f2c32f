//! Where the board stands in the window.

use crate::board::{BOARDHEIGHT, BOARDWIDTH};
use vstd::prelude::*;

verus! {

/// Width of the window, in pixels.
pub const WIDTH: u32 = 640;

/// Height of the window, in pixels.
pub const HEIGHT: u32 = 480;

/// Side of the square that shows one cell, in pixels.
pub const BOXSIZE: u32 = 20;

/// Pixels left of the board: the board stands in the middle of the window.
pub const XMARGIN: u32 = (WIDTH - BOARDWIDTH as u32 * BOXSIZE) / 2;

/// Pixels above the board: the board ends five pixels above the window's
/// lower edge.
pub const TOPMARGIN: u32 = HEIGHT - (BOARDHEIGHT as u32 * BOXSIZE) - 5;

/// The pixel at which the square of the cell in column `x` and row `y`
/// begins. Column and row need not lie on the board, but the pixel must be
/// one that a `u32` can hold.
pub fn xy_to_pxy(x: usize, y: usize) -> (pixel: (u32, u32))
    requires
        XMARGIN + x * BOXSIZE <= u32::MAX,
        TOPMARGIN + y * BOXSIZE <= u32::MAX,
    ensures
        pixel.0 == XMARGIN + x * BOXSIZE,
        pixel.1 == TOPMARGIN + y * BOXSIZE,
{
    (XMARGIN + (x as u32 * BOXSIZE), TOPMARGIN + (y as u32 * BOXSIZE))
}

} // verus!
