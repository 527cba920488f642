//! The frame buffer: six frame rows of nine bytes, one row per channel.
//!
//! Each frame row packs the two logical rows of its channel across three
//! color planes, at the byte and bit offsets of [`crate::mapping`]. All
//! planes are active-low: a 0 bit drives its LED channel on, so a buffer of
//! all `0xFF` bytes shows a blank screen. Drawing operations ignore
//! out-of-range coordinates; a dropped write heals on the next full redraw.

use vstd::prelude::*;

use crate::mapping::{
    get_display_indexes, lemma_display_indexes_in_range, lemma_display_indexes_injective,
    spec_bit_index, spec_byte_index, spec_row_index,
};
use crate::{Color, Coordinates};

verus! {

/// True when glyph pixel `(x, y)` lies inside a `w` by `h` glyph placed at
/// `(sx, sy)` and the glyph's row-major bitmap is set there.
pub open spec fn glyph_covers(
    glyph: Seq<bool>,
    w: int,
    h: int,
    sx: int,
    sy: int,
    x: int,
    y: int,
) -> bool {
    sx <= x < sx + w && sy <= y < sy + h && glyph[(y - sy) * w + (x - sx)]
}

/// The part of a glyph already copied when the row-major walk stands at
/// `(row, col)`: every set glyph pixel of an earlier row, or of the current
/// row at an earlier column.
spec fn glyph_covered_before(
    glyph: Seq<bool>,
    w: int,
    h: int,
    sx: int,
    sy: int,
    x: int,
    y: int,
    row: int,
    col: int,
) -> bool {
    glyph_covers(glyph, w, h, sx, sy, x, y) && (y - sy < row || (y - sy == row && x - sx < col))
}

/// The glyph index a character draws as: `'0'` to `'9'` give 0 to 9, `'A'`
/// to `'Z'` give 10 to 35, anything else draws nothing.
pub open spec fn spec_char_glyph_index(c: char) -> Option<int> {
    let v = c as u32;
    if 48 <= v && v <= 57 {
        Some((v - 48) as int)
    } else if 65 <= v && v <= 90 {
        Some((v - 65 + 10) as int)
    } else {
        None
    }
}

/// True when bit `i` of `v` is low: the plane drives its LED on (active-low).
pub open spec fn plane_on(v: u8, i: u8) -> bool {
    v & (1u8 << i) == 0
}

/// A byte of all-high bits leaves every plane off.
pub proof fn lemma_plane_off_ff(i: u8)
    requires
        i < 8,
    ensures
        !plane_on(0xFF, i),
{
    assert(0xFFu8 & (1u8 << i) != 0) by (bit_vector)
        requires
            i < 8,
    ;
}

/// Writing level `c` into bit `i` by mask-and-or sets exactly that bit:
/// the plane at `i` reads back as `c == 0` (active-low), and every other
/// bit keeps its old level.
pub proof fn lemma_set_bit_effect(v: u8, i: u8, c: u8, j: u8)
    requires
        i < 8,
        j < 8,
        c == 0 || c == 1,
    ensures
        plane_on((v & !(1u8 << i)) | (c << i), i) == (c == 0),
        i != j ==> plane_on((v & !(1u8 << i)) | (c << i), j) == plane_on(v, j),
{
    assert(((((v & !(1u8 << i)) | (c << i)) & (1u8 << i)) == 0) == (c == 0)) by (bit_vector)
        requires
            i < 8 && (c == 0 || c == 1),
    ;
    assert(i != j ==> (((((v & !(1u8 << i)) | (c << i)) & (1u8 << j)) == 0) == ((v & (1u8 << j))
        == 0))) by (bit_vector)
        requires
            i < 8 && j < 8 && (c == 0 || c == 1),
    ;
}

/// One frame row of all-high bytes: what the transport sends to blank a
/// channel, and the state of every row after a clear.
pub fn blank_row() -> (row: Vec<u8>)
    ensures
        row@.len() == 9,
        forall|j: int| 0 <= j < 9 ==> row@[j] == 0xFFu8,
{
    let mut row: Vec<u8> = Vec::new();
    while row.len() < 9
        invariant
            row@.len() <= 9,
            forall|j: int| 0 <= j < row@.len() ==> row@[j] == 0xFFu8,
        decreases 9 - row@.len(),
    {
        row.push(0xFF);
    }
    row
}

/// The pixel contents of the display, as the transport will shift them out.
pub struct FrameBuffer {
    pub rows: Vec<Vec<u8>>,
}

impl FrameBuffer {
    /// Six frame rows of nine bytes each.
    pub open spec fn wf(self) -> bool {
        self.rows@.len() == 6 && forall|r: int|
            0 <= r < 6 ==> (#[trigger] self.rows@[r])@.len() == 9
    }

    /// Byte `b` of frame row `r`.
    pub open spec fn byte_at(self, r: int, b: int) -> u8 {
        self.rows@[r]@[b]
    }

    /// The color pixel `(x, y)` reads back as: red one byte past the base,
    /// green at the base, blue two past, each on when its bit is low.
    pub open spec fn color_at(self, x: int, y: int) -> Color {
        let r = spec_row_index(y);
        let b = spec_byte_index(x, y);
        let i = spec_bit_index(x, y) as u8;
        (plane_on(self.byte_at(r, b + 1), i), plane_on(self.byte_at(r, b), i), plane_on(
            self.byte_at(r, b + 2),
            i,
        ))
    }

    /// A blank display: every byte high, every pixel off.
    pub fn new() -> (fb: FrameBuffer)
        ensures
            fb.wf(),
            forall|r: int, b: int| 0 <= r < 6 && 0 <= b < 9 ==> #[trigger] fb.byte_at(r, b) == 0xFFu8,
            forall|x: int, y: int|
                0 <= x < 12 && 0 <= y < 12 ==> #[trigger] fb.color_at(x, y) == ((
                false,
                false,
                false,
            )),
    {
        let mut fb = FrameBuffer { rows: Vec::new() };
        fb.clear();
        fb
    }

    /// Blank the whole buffer: every byte back to `0xFF`, every pixel off.
    pub fn clear(&mut self)
        ensures
            final(self).wf(),
            forall|r: int, b: int|
                0 <= r < 6 && 0 <= b < 9 ==> #[trigger] final(self).byte_at(r, b) == 0xFFu8,
            forall|x: int, y: int|
                0 <= x < 12 && 0 <= y < 12 ==> #[trigger] final(self).color_at(x, y) == ((
                false,
                false,
                false,
            )),
    {
        let mut rows: Vec<Vec<u8>> = Vec::new();
        while rows.len() < 6
            invariant
                rows@.len() <= 6,
                forall|r: int|
                    0 <= r < rows@.len() ==> (#[trigger] rows@[r])@.len() == 9 && forall|j: int|
                        0 <= j < 9 ==> rows@[r]@[j] == 0xFFu8,
            decreases 6 - rows@.len(),
        {
            rows.push(blank_row());
        }
        self.rows = rows;
        proof {
            assert forall|x: int, y: int| 0 <= x < 12 && 0 <= y < 12 implies #[trigger] self
                .color_at(x, y) == ((false, false, false)) by {
                lemma_display_indexes_in_range(x, y);
                lemma_plane_off_ff(spec_bit_index(x, y) as u8);
            }
        }
    }

    /// Read pixel `(x, y)` back out of the packed planes; `None` off the
    /// matrix.
    pub fn get_pixel(&self, pos: Coordinates) -> (c: Option<Color>)
        requires
            self.wf(),
        ensures
            pos.0 < 12 && pos.1 < 12 ==> c == Some(self.color_at(pos.0 as int, pos.1 as int)),
            pos.0 >= 12 || pos.1 >= 12 ==> c == None::<Color>,
    {
        if pos.0 > 11 || pos.1 > 11 {
            return None;
        }
        let (byte_idx, bit_idx) = get_display_indexes(pos);
        let row = pos.1 % 6;
        proof {
            lemma_display_indexes_in_range(pos.0 as int, pos.1 as int);
        }
        let g = (self.rows[row][byte_idx] & (1u8 << bit_idx)) == 0;
        let r = (self.rows[row][byte_idx + 1] & (1u8 << bit_idx)) == 0;
        let b = (self.rows[row][byte_idx + 2] & (1u8 << bit_idx)) == 0;
        Some((r, g, b))
    }

    /// Set pixel `pos` to `color`, touching exactly the three plane bits of
    /// that pixel; out-of-range coordinates leave the buffer unchanged.
    pub fn set_pixel(&mut self, pos: Coordinates, color: Color)
        requires
            old(self).wf(),
        ensures
            final(self).wf(),
            pos.0 < 12 && pos.1 < 12 ==> forall|x: int, y: int|
                0 <= x < 12 && 0 <= y < 12 ==> #[trigger] final(self).color_at(x, y) == (if x
                    == pos.0 as int && y == pos.1 as int {
                    color
                } else {
                    old(self).color_at(x, y)
                }),
            pos.0 >= 12 || pos.1 >= 12 ==> *final(self) == *old(self),
    {
        if pos.0 > 11 || pos.1 > 11 {
            return ;
        }
        let (byte_idx, bit_idx) = get_display_indexes(pos);
        let row = pos.1 % 6;
        proof {
            lemma_display_indexes_in_range(pos.0 as int, pos.1 as int);
        }
        let g: u8 = if color.1 {
            0
        } else {
            1
        };
        let r: u8 = if color.0 {
            0
        } else {
            1
        };
        let b: u8 = if color.2 {
            0
        } else {
            1
        };
        let v0 = self.rows[row][byte_idx];
        self.rows[row][byte_idx] = (v0 & !(1u8 << bit_idx)) | (g << bit_idx);
        let v1 = self.rows[row][byte_idx + 1];
        self.rows[row][byte_idx + 1] = (v1 & !(1u8 << bit_idx)) | (r << bit_idx);
        let v2 = self.rows[row][byte_idx + 2];
        self.rows[row][byte_idx + 2] = (v2 & !(1u8 << bit_idx)) | (b << bit_idx);
        proof {
            let px = pos.0 as int;
            let py = pos.1 as int;
            let ry = spec_row_index(py);
            let bb = spec_byte_index(px, py);
            let bi = spec_bit_index(px, py) as u8;
            assert forall|x: int, y: int| 0 <= x < 12 && 0 <= y < 12 implies #[trigger] self
                .color_at(x, y) == (if x == px && y == py {
                color
            } else {
                old(self).color_at(x, y)
            }) by {
                lemma_display_indexes_in_range(x, y);
                let r2 = spec_row_index(y);
                let b2 = spec_byte_index(x, y);
                let i2 = spec_bit_index(x, y) as u8;
                if r2 == ry {
                    if x == px && y == py {
                        lemma_set_bit_effect(v0, bi, g, bi);
                        lemma_set_bit_effect(v1, bi, r, bi);
                        lemma_set_bit_effect(v2, bi, b, bi);
                    } else {
                        if b2 == bb && i2 == bi {
                            lemma_display_indexes_injective(x, y, px, py);
                        }
                        if b2 == bb {
                            lemma_set_bit_effect(v0, bi, g, i2);
                            lemma_set_bit_effect(v1, bi, r, i2);
                            lemma_set_bit_effect(v2, bi, b, i2);
                        }
                    }
                }
            }
        }
    }

    /// Paint the inclusive rectangle between `pos1` and `pos2`, pixel by
    /// pixel; the parts of it off the matrix are ignored.
    pub fn draw_rect(&mut self, pos1: Coordinates, pos2: Coordinates, color: Color)
        requires
            old(self).wf(),
        ensures
            final(self).wf(),
            forall|x: int, y: int|
                0 <= x < 12 && 0 <= y < 12 ==> #[trigger] final(self).color_at(x, y) == (if pos1.0
                    <= x && x <= pos2.0 && pos1.1 <= y && y <= pos2.1 {
                    color
                } else {
                    old(self).color_at(x, y)
                }),
    {
        let x_end = if pos2.0 > 11 {
            11
        } else {
            pos2.0
        };
        let y_end = if pos2.1 > 11 {
            11
        } else {
            pos2.1
        };
        let mut x = pos1.0;
        while x <= x_end
            invariant
                self.wf(),
                pos1.0 <= x,
                x_end == (if pos2.0 > 11 {
                    11int
                } else {
                    pos2.0 as int
                }),
                y_end == (if pos2.1 > 11 {
                    11int
                } else {
                    pos2.1 as int
                }),
                x <= x_end + 1 || x == pos1.0,
                forall|px: int, py: int|
                    0 <= px < 12 && 0 <= py < 12 ==> #[trigger] self.color_at(px, py) == (if pos1.0
                        <= px && px < x && pos1.1 <= py && py <= pos2.1 {
                        color
                    } else {
                        old(self).color_at(px, py)
                    }),
            decreases x_end + 1 - x,
        {
            let mut y = pos1.1;
            while y <= y_end
                invariant
                    self.wf(),
                    pos1.0 <= x,
                    x <= x_end,
                    x <= 11,
                    pos1.1 <= y,
                    y_end == (if pos2.1 > 11 {
                        11int
                    } else {
                        pos2.1 as int
                    }),
                    y <= y_end + 1 || y == pos1.1,
                    forall|px: int, py: int|
                        0 <= px < 12 && 0 <= py < 12 ==> #[trigger] self.color_at(px, py) == (if (
                        pos1.0 <= px && px < x && pos1.1 <= py && py <= pos2.1) || (px == x && pos1.1
                            <= py && py < y) {
                            color
                        } else {
                            old(self).color_at(px, py)
                        }),
                decreases y_end + 1 - y,
            {
                self.set_pixel((x, y), color);
                y = y + 1;
            }
            x = x + 1;
        }
    }

    /// Copy glyph `n` of a row-major boolean font onto the buffer at
    /// `start_pos`, painting only the set bits and leaving every other pixel
    /// alone.
    pub fn draw_font_char(
        &mut self,
        n: usize,
        font: &[&[bool]],
        font_size: (usize, usize),
        start_pos: Coordinates,
        color: Color,
    )
        requires
            old(self).wf(),
            n < font@.len(),
            font@[n as int]@.len() >= font_size.0 * font_size.1,
            start_pos.0 + font_size.0 <= usize::MAX,
            start_pos.1 + font_size.1 <= usize::MAX,
        ensures
            final(self).wf(),
            forall|x: int, y: int|
                0 <= x < 12 && 0 <= y < 12 ==> #[trigger] final(self).color_at(x, y) == (if
                    glyph_covers(
                    font@[n as int]@,
                    font_size.0 as int,
                    font_size.1 as int,
                    start_pos.0 as int,
                    start_pos.1 as int,
                    x,
                    y,
                ) {
                    color
                } else {
                    old(self).color_at(x, y)
                }),
    {
        let char_data = font[n];
        let len = char_data.len();
        let w = font_size.0;
        let h = font_size.1;
        let ghost g = font@[n as int]@;
        let ghost sx = start_pos.0 as int;
        let ghost sy = start_pos.1 as int;
        let mut row: usize = 0;
        while row < h
            invariant
                self.wf(),
                row <= h,
                char_data@ == g,
                len == g.len(),
                g.len() >= w * h,
                start_pos.0 + w <= usize::MAX,
                start_pos.1 + h <= usize::MAX,
                sx == start_pos.0 as int,
                sy == start_pos.1 as int,
                forall|px: int, py: int|
                    0 <= px < 12 && 0 <= py < 12 ==> #[trigger] self.color_at(px, py) == (if
                        glyph_covered_before(g, w as int, h as int, sx, sy, px, py, row as int, 0) {
                        color
                    } else {
                        old(self).color_at(px, py)
                    }),
            decreases h - row,
        {
            let mut col: usize = 0;
            while col < w
                invariant
                    self.wf(),
                    row < h,
                    col <= w,
                    char_data@ == g,
                    len == g.len(),
                    g.len() >= w * h,
                    start_pos.0 + w <= usize::MAX,
                    start_pos.1 + h <= usize::MAX,
                    sx == start_pos.0 as int,
                    sy == start_pos.1 as int,
                    forall|px: int, py: int|
                        0 <= px < 12 && 0 <= py < 12 ==> #[trigger] self.color_at(px, py) == (if
                            glyph_covered_before(
                            g,
                            w as int,
                            h as int,
                            sx,
                            sy,
                            px,
                            py,
                            row as int,
                            col as int,
                        ) {
                            color
                        } else {
                            old(self).color_at(px, py)
                        }),
                decreases w - col,
            {
                proof {
                    assert(row * w + col < h * w) by (nonlinear_arith)
                        requires
                            row < h && col < w,
                    ;
                    assert(h * w == w * h) by (nonlinear_arith);
                }
                let pixel_on = char_data[row * w + col];
                let pos = (start_pos.0 + col, start_pos.1 + row);
                if pixel_on {
                    self.set_pixel(pos, color);
                }
                col = col + 1;
            }
            row = row + 1;
            proof {
                assert forall|px: int, py: int| 0 <= px < 12 && 0 <= py < 12 implies
                    glyph_covered_before(g, w as int, h as int, sx, sy, px, py, row as int, 0)
                        == glyph_covered_before(
                    g,
                    w as int,
                    h as int,
                    sx,
                    sy,
                    px,
                    py,
                    row as int - 1,
                    w as int,
                ) by {}
            }
        }
        proof {
            assert forall|px: int, py: int| 0 <= px < 12 && 0 <= py < 12 implies glyph_covered_before(
                g,
                w as int,
                h as int,
                sx,
                sy,
                px,
                py,
                h as int,
                0,
            ) == glyph_covers(g, w as int, h as int, sx, sy, px, py) by {}
        }
    }

    /// Draw the decimal digit `n % 10` from a ten-glyph font at `start_pos`.
    pub fn draw_digit(
        &mut self,
        n: u32,
        font: &[&[bool]],
        font_size: (usize, usize),
        start_pos: Coordinates,
        color: Color,
    )
        requires
            old(self).wf(),
            n % 10 < font@.len(),
            font@[(n % 10) as int]@.len() >= font_size.0 * font_size.1,
            start_pos.0 + font_size.0 <= usize::MAX,
            start_pos.1 + font_size.1 <= usize::MAX,
        ensures
            final(self).wf(),
            forall|x: int, y: int|
                0 <= x < 12 && 0 <= y < 12 ==> #[trigger] final(self).color_at(x, y) == (if
                    glyph_covers(
                    font@[(n % 10) as int]@,
                    font_size.0 as int,
                    font_size.1 as int,
                    start_pos.0 as int,
                    start_pos.1 as int,
                    x,
                    y,
                ) {
                    color
                } else {
                    old(self).color_at(x, y)
                }),
    {
        let idx = (n % 10) as usize;
        self.draw_font_char(idx, font, font_size, start_pos, color);
    }

    /// Draw the glyph of a digit or upper-case letter at `start_pos`; any
    /// other character, or one whose glyph the font lacks, draws nothing.
    pub fn draw_char(
        &mut self,
        character: char,
        font: &[&[bool]],
        font_size: (usize, usize),
        start_pos: Coordinates,
        color: Color,
    )
        requires
            old(self).wf(),
            forall|i: int|
                0 <= i < font@.len() ==> (#[trigger] font@[i])@.len() >= font_size.0 * font_size.1,
            start_pos.0 + font_size.0 <= usize::MAX,
            start_pos.1 + font_size.1 <= usize::MAX,
        ensures
            final(self).wf(),
            spec_char_glyph_index(character) is Some && spec_char_glyph_index(character)->0
                < font@.len() ==> forall|x: int, y: int|
                0 <= x < 12 && 0 <= y < 12 ==> #[trigger] final(self).color_at(x, y) == (if
                    glyph_covers(
                    font@[spec_char_glyph_index(character)->0]@,
                    font_size.0 as int,
                    font_size.1 as int,
                    start_pos.0 as int,
                    start_pos.1 as int,
                    x,
                    y,
                ) {
                    color
                } else {
                    old(self).color_at(x, y)
                }),
            !(spec_char_glyph_index(character) is Some && spec_char_glyph_index(character)->0
                < font@.len()) ==> *final(self) == *old(self),
    {
        let code = character as u32;
        let char_index: usize;
        if code >= 48 && code <= 57 {
            char_index = (code - 48) as usize;
        } else if code >= 65 && code <= 90 {
            char_index = (code - 65 + 10) as usize;
        } else {
            return ;
        }
        if char_index >= font.len() {
            return ;
        }
        self.draw_font_char(char_index, font, font_size, start_pos, color);
    }
}

} // verus!
