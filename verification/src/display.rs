//! The display-only driver variant and the channel multiplexer table.
//!
//! `ArcadeCoderDisplay` carries a frame buffer and the anti-ghost choice but
//! no button state: it is the driver for a board used as a pure display.
//! The multiplexer table maps a channel choice to the three address-line
//! levels; it encodes the board's wiring and must be reproduced exactly.

use vstd::prelude::*;

use crate::framebuffer::{glyph_covers, spec_char_glyph_index, FrameBuffer};
use crate::{Color, Coordinates};

verus! {

/// The three address-line levels that select a channel: channels 0 to 5
/// each have their wired pattern, `Some(7)` is the all-high state some
/// designs use for sensing, and anything else — `None` included — drives
/// all lines low, deselecting every channel.
pub open spec fn spec_channel_levels(channel: Option<usize>) -> (bool, bool, bool) {
    match channel {
        Some(c) => {
            if c == 0 {
                (false, true, false)
            } else if c == 1 {
                (true, true, false)
            } else if c == 2 {
                (true, false, true)
            } else if c == 3 {
                (false, false, true)
            } else if c == 4 {
                (true, false, false)
            } else if c == 5 {
                (false, true, true)
            } else if c == 7 {
                (true, true, true)
            } else {
                (false, false, false)
            }
        },
        None => (false, false, false),
    }
}

/// Compute the address-line levels `(a0, a1, a2)` for a channel choice;
/// after driving them, the hardware needs its settle delay before the
/// multiplexer output is valid.
pub fn channel_levels(channel: Option<usize>) -> (levels: (bool, bool, bool))
    ensures
        levels == spec_channel_levels(channel),
{
    match channel {
        Some(c) => {
            if c == 0 {
                (false, true, false)
            } else if c == 1 {
                (true, true, false)
            } else if c == 2 {
                (true, false, true)
            } else if c == 3 {
                (false, false, true)
            } else if c == 4 {
                (true, false, false)
            } else if c == 5 {
                (false, true, true)
            } else if c == 7 {
                (true, true, true)
            } else {
                (false, false, false)
            }
        },
        None => (false, false, false),
    }
}

/// The display-only driver: a frame buffer plus the anti-ghost choice.
pub struct ArcadeCoderDisplay {
    /// The current display buffer.
    pub display_buffer: FrameBuffer,
    /// Whether to send a blank row after each real row to reduce ghosting,
    /// trading brightness for less bleed into neighboring rows.
    pub anti_ghost: bool,
}

impl ArcadeCoderDisplay {
    /// Six frame rows of nine bytes.
    pub open spec fn wf(self) -> bool {
        self.display_buffer.wf()
    }

    /// The color pixel `(x, y)` of the display buffer reads back as.
    pub open spec fn color_at(self, x: int, y: int) -> Color {
        self.display_buffer.color_at(x, y)
    }

    /// A blank display with anti-ghosting on.
    pub fn new() -> (d: ArcadeCoderDisplay)
        ensures
            d.wf(),
            d.anti_ghost,
            forall|x: int, y: int|
                0 <= x < 12 && 0 <= y < 12 ==> #[trigger] d.color_at(x, y) == ((
                false,
                false,
                false,
            )),
    {
        ArcadeCoderDisplay { display_buffer: FrameBuffer::new(), anti_ghost: true }
    }

    /// Blank the display buffer.
    pub fn clear(&mut self)
        requires
            old(self).wf(),
        ensures
            final(self).wf(),
            final(self).anti_ghost == old(self).anti_ghost,
            forall|x: int, y: int|
                0 <= x < 12 && 0 <= y < 12 ==> #[trigger] final(self).color_at(x, y) == ((
                false,
                false,
                false,
            )),
    {
        self.display_buffer.clear();
    }

    /// Set one pixel; out-of-range coordinates change nothing.
    pub fn set_pixel(&mut self, pos: Coordinates, color: Color)
        requires
            old(self).wf(),
        ensures
            final(self).wf(),
            final(self).anti_ghost == old(self).anti_ghost,
            pos.0 < 12 && pos.1 < 12 ==> forall|x: int, y: int|
                0 <= x < 12 && 0 <= y < 12 ==> #[trigger] final(self).color_at(x, y) == (if x
                    == pos.0 as int && y == pos.1 as int {
                    color
                } else {
                    old(self).color_at(x, y)
                }),
            pos.0 >= 12 || pos.1 >= 12 ==> *final(self) == *old(self),
    {
        self.display_buffer.set_pixel(pos, color);
    }

    /// Read one pixel back; `None` off the matrix.
    pub fn get_pixel(&self, pos: Coordinates) -> (c: Option<Color>)
        requires
            self.wf(),
        ensures
            pos.0 < 12 && pos.1 < 12 ==> c == Some(self.color_at(pos.0 as int, pos.1 as int)),
            pos.0 >= 12 || pos.1 >= 12 ==> c == None::<Color>,
    {
        self.display_buffer.get_pixel(pos)
    }

    /// Paint the inclusive rectangle between `pos1` and `pos2`.
    pub fn draw_rect(&mut self, pos1: Coordinates, pos2: Coordinates, color: Color)
        requires
            old(self).wf(),
        ensures
            final(self).wf(),
            final(self).anti_ghost == old(self).anti_ghost,
            forall|x: int, y: int|
                0 <= x < 12 && 0 <= y < 12 ==> #[trigger] final(self).color_at(x, y) == (if pos1.0
                    <= x && x <= pos2.0 && pos1.1 <= y && y <= pos2.1 {
                    color
                } else {
                    old(self).color_at(x, y)
                }),
    {
        self.display_buffer.draw_rect(pos1, pos2, color);
    }

    /// Copy glyph `n` of a row-major boolean font onto the buffer.
    pub fn draw_font_char(
        &mut self,
        n: usize,
        font: &[&[bool]],
        font_size: (usize, usize),
        start_pos: Coordinates,
        color: Color,
    )
        requires
            old(self).wf(),
            n < font@.len(),
            font@[n as int]@.len() >= font_size.0 * font_size.1,
            start_pos.0 + font_size.0 <= usize::MAX,
            start_pos.1 + font_size.1 <= usize::MAX,
        ensures
            final(self).wf(),
            final(self).anti_ghost == old(self).anti_ghost,
            forall|x: int, y: int|
                0 <= x < 12 && 0 <= y < 12 ==> #[trigger] final(self).color_at(x, y) == (if
                    glyph_covers(
                    font@[n as int]@,
                    font_size.0 as int,
                    font_size.1 as int,
                    start_pos.0 as int,
                    start_pos.1 as int,
                    x,
                    y,
                ) {
                    color
                } else {
                    old(self).color_at(x, y)
                }),
    {
        self.display_buffer.draw_font_char(n, font, font_size, start_pos, color);
    }

    /// Draw the decimal digit `n % 10` from a ten-glyph font.
    pub fn draw_digit(
        &mut self,
        n: u32,
        font: &[&[bool]],
        font_size: (usize, usize),
        start_pos: Coordinates,
        color: Color,
    )
        requires
            old(self).wf(),
            n % 10 < font@.len(),
            font@[(n % 10) as int]@.len() >= font_size.0 * font_size.1,
            start_pos.0 + font_size.0 <= usize::MAX,
            start_pos.1 + font_size.1 <= usize::MAX,
        ensures
            final(self).wf(),
            final(self).anti_ghost == old(self).anti_ghost,
            forall|x: int, y: int|
                0 <= x < 12 && 0 <= y < 12 ==> #[trigger] final(self).color_at(x, y) == (if
                    glyph_covers(
                    font@[(n % 10) as int]@,
                    font_size.0 as int,
                    font_size.1 as int,
                    start_pos.0 as int,
                    start_pos.1 as int,
                    x,
                    y,
                ) {
                    color
                } else {
                    old(self).color_at(x, y)
                }),
    {
        self.display_buffer.draw_digit(n, font, font_size, start_pos, color);
    }

    /// Draw the glyph of a digit or upper-case letter; any other character,
    /// or one whose glyph the font lacks, draws nothing.
    pub fn draw_char(
        &mut self,
        character: char,
        font: &[&[bool]],
        font_size: (usize, usize),
        start_pos: Coordinates,
        color: Color,
    )
        requires
            old(self).wf(),
            forall|i: int|
                0 <= i < font@.len() ==> (#[trigger] font@[i])@.len() >= font_size.0 * font_size.1,
            start_pos.0 + font_size.0 <= usize::MAX,
            start_pos.1 + font_size.1 <= usize::MAX,
        ensures
            final(self).wf(),
            final(self).anti_ghost == old(self).anti_ghost,
            spec_char_glyph_index(character) is Some && spec_char_glyph_index(character)->0
                < font@.len() ==> forall|x: int, y: int|
                0 <= x < 12 && 0 <= y < 12 ==> #[trigger] final(self).color_at(x, y) == (if
                    glyph_covers(
                    font@[spec_char_glyph_index(character)->0]@,
                    font_size.0 as int,
                    font_size.1 as int,
                    start_pos.0 as int,
                    start_pos.1 as int,
                    x,
                    y,
                ) {
                    color
                } else {
                    old(self).color_at(x, y)
                }),
            !(spec_char_glyph_index(character) is Some && spec_char_glyph_index(character)->0
                < font@.len()) ==> *final(self) == *old(self),
    {
        self.display_buffer.draw_char(character, font, font_size, start_pos, color);
    }
}

} // verus!
