//! Driver logic for a 12x12 multiplexed RGB LED matrix with a button grid
//! that shares the display's shift-register bus.
//!
//! The matrix is refreshed six rows at a time: each of six channels lights one
//! row pair, and while a channel is deselected the same bus probes its two
//! rows for button presses. This crate holds the verified core of that
//! engine: the coordinate-to-bit mapping, the frame buffer and its drawing
//! operations, the probe patterns and scan bookkeeping, the debounce state
//! machines, and the scoreboard state driven by button events. The pin-level
//! and timing layer that carries these values to the hardware lives outside.

use vstd::prelude::*;

pub mod coder;
pub mod debounce;
pub mod display;
pub mod framebuffer;
pub mod inputs;
pub mod mapping;
pub mod scoreboard;

pub use coder::ArcadeCoder;
pub use display::ArcadeCoderDisplay;
pub use framebuffer::FrameBuffer;

verus! {

/// Display coordinates: `(x, y)`, with `(0, 0)` the top-left pixel and
/// `(11, 11)` the bottom-right.
pub type Coordinates = (usize, usize);

/// 3-bit color: `(red, green, blue)`.
pub type Color = (bool, bool, bool);

pub const WHITE: Color = (true, true, true);

pub const YELLOW: Color = (true, true, false);

pub const CYAN: Color = (false, true, true);

pub const RED: Color = (true, false, false);

pub const MAGENTA: Color = (true, false, true);

pub const GREEN: Color = (false, true, false);

pub const BLUE: Color = (false, false, true);

pub const BLACK: Color = (false, false, false);

/// A debounced change of one button cell, carrying its `(x, y)` coordinates.
#[derive(Clone, Copy, Debug, PartialEq, Eq, Structural)]
pub enum ButtonEvent {
    Pressed(u8, u8),
    Released(u8, u8),
}

/// An `n` by `m` grid held as a vector of row vectors.
pub open spec fn grid_wf<T>(g: Seq<Vec<T>>, n: int, m: int) -> bool {
    g.len() == n && forall|r: int| 0 <= r < n ==> (#[trigger] g[r])@.len() == m
}

/// Cell `(row, col)` of a grid of row vectors.
pub open spec fn grid_at<T>(g: Seq<Vec<T>>, row: int, col: int) -> T {
    g[row]@[col]
}

/// A row of `n` copies of `value`.
pub fn filled_row<T: Copy>(value: T, n: usize) -> (row: Vec<T>)
    ensures
        row@.len() == n,
        forall|j: int| 0 <= j < n ==> row@[j] == value,
{
    let mut row: Vec<T> = Vec::new();
    while row.len() < n
        invariant
            row@.len() <= n,
            forall|j: int| 0 <= j < row@.len() ==> row@[j] == value,
        decreases n - row@.len(),
    {
        row.push(value);
    }
    row
}

/// A 12 by 12 grid with every cell set to `value`.
pub fn filled_grid<T: Copy>(value: T) -> (g: Vec<Vec<T>>)
    ensures
        grid_wf(g@, 12, 12),
        forall|r: int, c: int| 0 <= r < 12 && 0 <= c < 12 ==> grid_at(g@, r, c) == value,
{
    let mut g: Vec<Vec<T>> = Vec::new();
    while g.len() < 12
        invariant
            g@.len() <= 12,
            forall|r: int|
                0 <= r < g@.len() ==> (#[trigger] g@[r])@.len() == 12 && forall|c: int|
                    0 <= c < 12 ==> g@[r]@[c] == value,
        decreases 12 - g@.len(),
    {
        g.push(filled_row(value, 12));
    }
    g
}

} // verus!
