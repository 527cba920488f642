//! The combined display-refresh / button-scan engine.
//!
//! One `ArcadeCoder` owns the display buffer, the raw button grid that each
//! scan pass rebuilds, and the debounce state of all 144 cells. Drawing
//! calls mutate only the display buffer; a scan pass mutates only the raw
//! grid; the debounce pass folds the raw grid into the per-cell state
//! machines and returns the committed events. The pin, bus and timing work
//! that surrounds these steps on real hardware stays outside the crate's
//! verified core and consumes these values through the contracts below.

use vstd::prelude::*;

use crate::debounce::{spec_emits, spec_events_prefix, spec_next_count, spec_next_stable};
use crate::framebuffer::{blank_row, glyph_covers, spec_char_glyph_index, FrameBuffer};
use crate::inputs::{lemma_probe_isolates, lemma_restore_bit, line_level, spec_probe_byte};
use crate::mapping::{get_display_indexes, lemma_display_indexes_in_range};
use crate::{filled_grid, grid_at, grid_wf, ButtonEvent, Color, Coordinates};

verus! {

/// Which cells a scan pass has already probed when it stands at column `x`,
/// `half` of `channel`: every cell of an earlier channel, and of the current
/// channel every earlier column plus the current column's earlier half.
pub open spec fn spec_scanned(gy: int, gx: int, channel: int, x: int, half: int) -> bool {
    gy % 6 < channel || (gy % 6 == channel && (gx < x || (gx == x && (if gy < 6 {
        0int
    } else {
        1int
    }) < half)))
}

/// The display and button engine.
pub struct ArcadeCoder {
    /// The current display buffer.
    pub display_buffer: FrameBuffer,
    /// The raw button grid of the latest scan pass, indexed `[y][x]`.
    pub button_presses: Vec<Vec<bool>>,
    /// Consecutive matching reads required before a button change commits.
    pub debounce_reads: u8,
    /// The previous raw sample of each cell.
    pub prev_read: Vec<Vec<bool>>,
    /// Consecutive matching samples seen per cell, saturating.
    pub stable_count: Vec<Vec<u8>>,
    /// The committed, debounced state of each cell.
    pub stable_state: Vec<Vec<bool>>,
}

impl ArcadeCoder {
    /// The display buffer is six rows of nine bytes and every grid is 12 by
    /// 12.
    pub open spec fn wf(self) -> bool {
        self.display_buffer.wf() && grid_wf(self.button_presses@, 12, 12) && grid_wf(
            self.prev_read@,
            12,
            12,
        ) && grid_wf(self.stable_count@, 12, 12) && grid_wf(self.stable_state@, 12, 12)
    }

    /// The color pixel `(x, y)` of the display buffer reads back as.
    pub open spec fn color_at(self, x: int, y: int) -> Color {
        self.display_buffer.color_at(x, y)
    }

    /// True when the debounce state and configuration of `other` carry over
    /// unchanged.
    pub open spec fn same_debounce(self, other: ArcadeCoder) -> bool {
        self.debounce_reads == other.debounce_reads && self.prev_read == other.prev_read
            && self.stable_count == other.stable_count && self.stable_state == other.stable_state
    }

    /// A fresh engine: blank display, no presses recorded, every debounce
    /// machine at rest, and five matching reads required to commit.
    pub fn new() -> (ac: ArcadeCoder)
        ensures
            ac.wf(),
            forall|x: int, y: int|
                0 <= x < 12 && 0 <= y < 12 ==> #[trigger] ac.color_at(x, y) == ((
                false,
                false,
                false,
            )),
            forall|gx: int, gy: int|
                0 <= gx < 12 && 0 <= gy < 12 ==> !(#[trigger] grid_at(ac.button_presses@, gy, gx))
                    && !grid_at(ac.prev_read@, gy, gx) && grid_at(ac.stable_count@, gy, gx) == 0
                    && !grid_at(ac.stable_state@, gy, gx),
            ac.debounce_reads == 5,
    {
        ArcadeCoder {
            display_buffer: FrameBuffer::new(),
            button_presses: filled_grid(false),
            debounce_reads: 5,
            prev_read: filled_grid(false),
            stable_count: filled_grid(0u8),
            stable_state: filled_grid(false),
        }
    }

    /// Blank the display buffer; the next scan pass shows the empty screen.
    pub fn clear(&mut self)
        requires
            old(self).wf(),
        ensures
            final(self).wf(),
            final(self).button_presses == old(self).button_presses,
            final(self).same_debounce(*old(self)),
            forall|x: int, y: int|
                0 <= x < 12 && 0 <= y < 12 ==> #[trigger] final(self).color_at(x, y) == ((
                false,
                false,
                false,
            )),
    {
        self.display_buffer.clear();
    }

    /// Set one pixel of the display buffer; out-of-range coordinates change
    /// nothing.
    pub fn set_pixel(&mut self, pos: Coordinates, color: Color)
        requires
            old(self).wf(),
        ensures
            final(self).wf(),
            final(self).button_presses == old(self).button_presses,
            final(self).same_debounce(*old(self)),
            pos.0 < 12 && pos.1 < 12 ==> forall|x: int, y: int|
                0 <= x < 12 && 0 <= y < 12 ==> #[trigger] final(self).color_at(x, y) == (if x
                    == pos.0 as int && y == pos.1 as int {
                    color
                } else {
                    old(self).color_at(x, y)
                }),
            pos.0 >= 12 || pos.1 >= 12 ==> *final(self) == *old(self),
    {
        self.display_buffer.set_pixel(pos, color);
    }

    /// Read one pixel of the display buffer back; `None` off the matrix.
    pub fn get_pixel(&self, pos: Coordinates) -> (c: Option<Color>)
        requires
            self.wf(),
        ensures
            pos.0 < 12 && pos.1 < 12 ==> c == Some(self.color_at(pos.0 as int, pos.1 as int)),
            pos.0 >= 12 || pos.1 >= 12 ==> c == None::<Color>,
    {
        self.display_buffer.get_pixel(pos)
    }

    /// Paint the inclusive rectangle between `pos1` and `pos2`.
    pub fn draw_rect(&mut self, pos1: Coordinates, pos2: Coordinates, color: Color)
        requires
            old(self).wf(),
        ensures
            final(self).wf(),
            final(self).button_presses == old(self).button_presses,
            final(self).same_debounce(*old(self)),
            forall|x: int, y: int|
                0 <= x < 12 && 0 <= y < 12 ==> #[trigger] final(self).color_at(x, y) == (if pos1.0
                    <= x && x <= pos2.0 && pos1.1 <= y && y <= pos2.1 {
                    color
                } else {
                    old(self).color_at(x, y)
                }),
    {
        self.display_buffer.draw_rect(pos1, pos2, color);
    }

    /// Copy glyph `n` of a row-major boolean font onto the display buffer.
    pub fn draw_font_char(
        &mut self,
        n: usize,
        font: &[&[bool]],
        font_size: (usize, usize),
        start_pos: Coordinates,
        color: Color,
    )
        requires
            old(self).wf(),
            n < font@.len(),
            font@[n as int]@.len() >= font_size.0 * font_size.1,
            start_pos.0 + font_size.0 <= usize::MAX,
            start_pos.1 + font_size.1 <= usize::MAX,
        ensures
            final(self).wf(),
            final(self).button_presses == old(self).button_presses,
            final(self).same_debounce(*old(self)),
            forall|x: int, y: int|
                0 <= x < 12 && 0 <= y < 12 ==> #[trigger] final(self).color_at(x, y) == (if
                    glyph_covers(
                    font@[n as int]@,
                    font_size.0 as int,
                    font_size.1 as int,
                    start_pos.0 as int,
                    start_pos.1 as int,
                    x,
                    y,
                ) {
                    color
                } else {
                    old(self).color_at(x, y)
                }),
    {
        self.display_buffer.draw_font_char(n, font, font_size, start_pos, color);
    }

    /// Draw the decimal digit `n % 10` from a ten-glyph font.
    pub fn draw_digit(
        &mut self,
        n: u32,
        font: &[&[bool]],
        font_size: (usize, usize),
        start_pos: Coordinates,
        color: Color,
    )
        requires
            old(self).wf(),
            n % 10 < font@.len(),
            font@[(n % 10) as int]@.len() >= font_size.0 * font_size.1,
            start_pos.0 + font_size.0 <= usize::MAX,
            start_pos.1 + font_size.1 <= usize::MAX,
        ensures
            final(self).wf(),
            final(self).button_presses == old(self).button_presses,
            final(self).same_debounce(*old(self)),
            forall|x: int, y: int|
                0 <= x < 12 && 0 <= y < 12 ==> #[trigger] final(self).color_at(x, y) == (if
                    glyph_covers(
                    font@[(n % 10) as int]@,
                    font_size.0 as int,
                    font_size.1 as int,
                    start_pos.0 as int,
                    start_pos.1 as int,
                    x,
                    y,
                ) {
                    color
                } else {
                    old(self).color_at(x, y)
                }),
    {
        self.display_buffer.draw_digit(n, font, font_size, start_pos, color);
    }

    /// Draw the glyph of a digit or upper-case letter; any other character,
    /// or one whose glyph the font lacks, draws nothing.
    pub fn draw_char(
        &mut self,
        character: char,
        font: &[&[bool]],
        font_size: (usize, usize),
        start_pos: Coordinates,
        color: Color,
    )
        requires
            old(self).wf(),
            forall|i: int|
                0 <= i < font@.len() ==> (#[trigger] font@[i])@.len() >= font_size.0 * font_size.1,
            start_pos.0 + font_size.0 <= usize::MAX,
            start_pos.1 + font_size.1 <= usize::MAX,
        ensures
            final(self).wf(),
            final(self).button_presses == old(self).button_presses,
            final(self).same_debounce(*old(self)),
            spec_char_glyph_index(character) is Some && spec_char_glyph_index(character)->0
                < font@.len() ==> forall|x: int, y: int|
                0 <= x < 12 && 0 <= y < 12 ==> #[trigger] final(self).color_at(x, y) == (if
                    glyph_covers(
                    font@[spec_char_glyph_index(character)->0]@,
                    font_size.0 as int,
                    font_size.1 as int,
                    start_pos.0 as int,
                    start_pos.1 as int,
                    x,
                    y,
                ) {
                    color
                } else {
                    old(self).color_at(x, y)
                }),
            !(spec_char_glyph_index(character) is Some && spec_char_glyph_index(character)->0
                < font@.len()) ==> *final(self) == *old(self),
    {
        self.display_buffer.draw_char(character, font, font_size, start_pos, color);
    }

    /// The raw pressed state of cell `(x, y)` from the latest scan pass.
    pub fn button_pressed(&self, pos: Coordinates) -> (b: bool)
        requires
            self.wf(),
            pos.0 < 12,
            pos.1 < 12,
        ensures
            b == grid_at(self.button_presses@, pos.1 as int, pos.0 as int),
    {
        self.button_presses[pos.1][pos.0]
    }

    /// The committed, debounced state of cell `(x, y)`.
    pub fn stable_pressed(&self, pos: Coordinates) -> (b: bool)
        requires
            self.wf(),
            pos.0 < 12,
            pos.1 < 12,
        ensures
            b == grid_at(self.stable_state@, pos.1 as int, pos.0 as int),
    {
        self.stable_state[pos.1][pos.0]
    }

    /// Forget the previous pass's raw grid before probing anew.
    pub fn begin_scan(&mut self)
        requires
            old(self).wf(),
        ensures
            final(self).wf(),
            final(self).display_buffer == old(self).display_buffer,
            final(self).same_debounce(*old(self)),
            forall|gx: int, gy: int|
                0 <= gx < 12 && 0 <= gy < 12 ==> !(#[trigger] grid_at(
                    final(self).button_presses@,
                    gy,
                    gx,
                )),
    {
        self.button_presses = filled_grid(false);
    }

    /// Record the line level read while cell `pos` was being probed: an
    /// active level marks the cell pressed, a quiet one leaves it as it was.
    pub fn record_probe(&mut self, pos: Coordinates, hit: bool)
        requires
            old(self).wf(),
            pos.0 < 12,
            pos.1 < 12,
        ensures
            final(self).wf(),
            final(self).display_buffer == old(self).display_buffer,
            final(self).same_debounce(*old(self)),
            forall|gx: int, gy: int|
                0 <= gx < 12 && 0 <= gy < 12 ==> #[trigger] grid_at(
                    final(self).button_presses@,
                    gy,
                    gx,
                ) == (if gy == pos.1 as int && gx == pos.0 as int {
                    grid_at(old(self).button_presses@, gy, gx) || hit
                } else {
                    grid_at(old(self).button_presses@, gy, gx)
                }),
    {
        if hit {
            self.button_presses[pos.1][pos.0] = true;
        }
    }

    /// One full scan pass: probe all six channels column by column, half by
    /// half, and rebuild the raw button grid from the line levels the probe
    /// frames produce. `pressed` is the physical truth the input lines
    /// answer with — on hardware, which buttons are held down during the
    /// pass — and the rebuilt grid reproduces it exactly: the probe frames
    /// isolate each cell, so neither the partner row of a pair nor any other
    /// column can shadow a cell. The display buffer and the debounce state
    /// are untouched; the working probe buffer is restored after every cell,
    /// so each probe starts from an all-high frame.
    pub fn scan(&mut self, pressed: &Vec<Vec<bool>>)
        requires
            old(self).wf(),
            grid_wf(pressed@, 12, 12),
        ensures
            final(self).wf(),
            final(self).display_buffer == old(self).display_buffer,
            final(self).same_debounce(*old(self)),
            forall|gx: int, gy: int|
                0 <= gx < 12 && 0 <= gy < 12 ==> #[trigger] grid_at(
                    final(self).button_presses@,
                    gy,
                    gx,
                ) == grid_at(pressed@, gy, gx),
    {
        self.begin_scan();
        let mut channel: usize = 0;
        while channel < 6
            invariant
                self.wf(),
                channel <= 6,
                grid_wf(pressed@, 12, 12),
                self.display_buffer == old(self).display_buffer,
                self.same_debounce(*old(self)),
                forall|gx: int, gy: int|
                    0 <= gx < 12 && 0 <= gy < 12 ==> #[trigger] grid_at(
                        self.button_presses@,
                        gy,
                        gx,
                    ) == (if spec_scanned(gy, gx, channel as int, 0, 0) {
                        grid_at(pressed@, gy, gx)
                    } else {
                        false
                    }),
            decreases 6 - channel,
        {
            let mut test_buf = blank_row();
            let mut x: usize = 0;
            while x < 12
                invariant
                    self.wf(),
                    channel < 6,
                    x <= 12,
                    grid_wf(pressed@, 12, 12),
                    self.display_buffer == old(self).display_buffer,
                    self.same_debounce(*old(self)),
                    test_buf@.len() == 9,
                    forall|j: int| 0 <= j < 9 ==> test_buf@[j] == 0xFFu8,
                    forall|gx: int, gy: int|
                        0 <= gx < 12 && 0 <= gy < 12 ==> #[trigger] grid_at(
                            self.button_presses@,
                            gy,
                            gx,
                        ) == (if spec_scanned(gy, gx, channel as int, x as int, 0) {
                            grid_at(pressed@, gy, gx)
                        } else {
                            false
                        }),
                decreases 12 - x,
            {
                let mut half: usize = 0;
                while half < 2
                    invariant
                        self.wf(),
                        channel < 6,
                        x < 12,
                        half <= 2,
                        grid_wf(pressed@, 12, 12),
                        self.display_buffer == old(self).display_buffer,
                        self.same_debounce(*old(self)),
                        test_buf@.len() == 9,
                        forall|j: int| 0 <= j < 9 ==> test_buf@[j] == 0xFFu8,
                        forall|gx: int, gy: int|
                            0 <= gx < 12 && 0 <= gy < 12 ==> #[trigger] grid_at(
                                self.button_presses@,
                                gy,
                                gx,
                            ) == (if spec_scanned(gy, gx, channel as int, x as int, half as int) {
                                grid_at(pressed@, gy, gx)
                            } else {
                                false
                            }),
                    decreases 2 - half,
                {
                    let y = channel + 6 * half;
                    let ghost grid0 = self.button_presses@;
                    proof {
                        lemma_display_indexes_in_range(x as int, y as int);
                    }
                    let (b, i) = get_display_indexes((x, y));
                    let v = test_buf[b + 1];
                    test_buf[b + 1] = v & !(1u8 << i);
                    let hit = line_level(pressed, channel, &test_buf);
                    proof {
                        assert forall|j: int| 0 <= j < 9 implies test_buf@[j] == spec_probe_byte(
                            x as int,
                            y as int,
                            j,
                        ) by {}
                        lemma_probe_isolates(pressed@, channel as int, x as int, y as int, test_buf@);
                    }
                    if hit {
                        self.button_presses[y][x] = true;
                    }
                    let v2 = test_buf[b + 1];
                    test_buf[b + 1] = v2 | (1u8 << i);
                    proof {
                        lemma_restore_bit(i as u8);
                        let yi = y as int;
                        let xi = x as int;
                        let ch = channel as int;
                        let hf = half as int;
                        assert(yi % 6 == ch) by {
                            if half == 0 {
                                assert(yi == ch);
                            } else {
                                assert(yi == ch + 6);
                            }
                        }
                        // the probed cell was still unscanned, so it held `false`
                        assert(!spec_scanned(yi, xi, ch, xi, hf));
                        assert(grid_at(grid0, yi, xi) == false);
                        assert forall|gx: int, gy: int| 0 <= gx < 12 && 0 <= gy < 12 implies
                            #[trigger] grid_at(self.button_presses@, gy, gx) == (if spec_scanned(
                            gy,
                            gx,
                            ch,
                            xi,
                            hf + 1,
                        ) {
                            grid_at(pressed@, gy, gx)
                        } else {
                            false
                        }) by {
                            if gy < 6 {
                                assert(gy % 6 == gy);
                            } else {
                                assert(gy % 6 == gy - 6);
                            }
                            if gy == yi && gx == xi {
                                assert(grid_at(self.button_presses@, yi, xi) == (grid_at(
                                    grid0,
                                    yi,
                                    xi,
                                ) || hit));
                                assert(spec_scanned(yi, xi, ch, xi, hf + 1));
                            } else {
                                assert(grid_at(self.button_presses@, gy, gx) == grid_at(
                                    grid0,
                                    gy,
                                    gx,
                                ));
                                assert(grid_at(grid0, gy, gx) == (if spec_scanned(
                                    gy,
                                    gx,
                                    ch,
                                    xi,
                                    hf,
                                ) {
                                    grid_at(pressed@, gy, gx)
                                } else {
                                    false
                                }));
                                assert(spec_scanned(gy, gx, ch, xi, hf + 1) == spec_scanned(
                                    gy,
                                    gx,
                                    ch,
                                    xi,
                                    hf,
                                ));
                            }
                        }
                    }
                    half = half + 1;
                }
                x = x + 1;
            }
            channel = channel + 1;
        }
    }

    /// Fold the raw grid of the latest scan pass into the 144 debounce
    /// machines, one cycle each, and return the events committed this cycle
    /// in row-major cell order. Each cell advances independently: matching
    /// samples bump its counter, a changed sample resets it, and a counter
    /// reaching `debounce_reads` while the committed value disagrees flips
    /// that value and emits `Pressed` or `Released` for the cell.
    pub fn handle_input_events(&mut self) -> (events: Vec<ButtonEvent>)
        requires
            old(self).wf(),
        ensures
            final(self).wf(),
            final(self).display_buffer == old(self).display_buffer,
            final(self).button_presses == old(self).button_presses,
            final(self).debounce_reads == old(self).debounce_reads,
            forall|gx: int, gy: int|
                0 <= gx < 12 && 0 <= gy < 12 ==> #[trigger] grid_at(final(self).prev_read@, gy, gx)
                    == grid_at(old(self).button_presses@, gy, gx),
            forall|gx: int, gy: int|
                0 <= gx < 12 && 0 <= gy < 12 ==> #[trigger] grid_at(
                    final(self).stable_count@,
                    gy,
                    gx,
                ) == spec_next_count(
                    grid_at(old(self).prev_read@, gy, gx),
                    grid_at(old(self).stable_count@, gy, gx),
                    grid_at(old(self).button_presses@, gy, gx),
                ),
            forall|gx: int, gy: int|
                0 <= gx < 12 && 0 <= gy < 12 ==> #[trigger] grid_at(
                    final(self).stable_state@,
                    gy,
                    gx,
                ) == spec_next_stable(
                    grid_at(old(self).prev_read@, gy, gx),
                    grid_at(old(self).stable_count@, gy, gx),
                    grid_at(old(self).stable_state@, gy, gx),
                    grid_at(old(self).button_presses@, gy, gx),
                    old(self).debounce_reads,
                ),
            events@ == spec_events_prefix(
                old(self).prev_read@,
                old(self).stable_count@,
                old(self).stable_state@,
                old(self).button_presses@,
                old(self).debounce_reads,
                144,
            ),
    {
        let mut events: Vec<ButtonEvent> = Vec::new();
        let mut y: usize = 0;
        while y < 12
            invariant
                self.wf(),
                y <= 12,
                self.display_buffer == old(self).display_buffer,
                self.button_presses == old(self).button_presses,
                self.debounce_reads == old(self).debounce_reads,
                forall|gx: int, gy: int|
                    0 <= gx < 12 && 0 <= gy < 12 ==> #[trigger] grid_at(self.prev_read@, gy, gx)
                        == (if gy * 12 + gx < y * 12 {
                        grid_at(old(self).button_presses@, gy, gx)
                    } else {
                        grid_at(old(self).prev_read@, gy, gx)
                    }),
                forall|gx: int, gy: int|
                    0 <= gx < 12 && 0 <= gy < 12 ==> #[trigger] grid_at(self.stable_count@, gy, gx)
                        == (if gy * 12 + gx < y * 12 {
                        spec_next_count(
                            grid_at(old(self).prev_read@, gy, gx),
                            grid_at(old(self).stable_count@, gy, gx),
                            grid_at(old(self).button_presses@, gy, gx),
                        )
                    } else {
                        grid_at(old(self).stable_count@, gy, gx)
                    }),
                forall|gx: int, gy: int|
                    0 <= gx < 12 && 0 <= gy < 12 ==> #[trigger] grid_at(self.stable_state@, gy, gx)
                        == (if gy * 12 + gx < y * 12 {
                        spec_next_stable(
                            grid_at(old(self).prev_read@, gy, gx),
                            grid_at(old(self).stable_count@, gy, gx),
                            grid_at(old(self).stable_state@, gy, gx),
                            grid_at(old(self).button_presses@, gy, gx),
                            old(self).debounce_reads,
                        )
                    } else {
                        grid_at(old(self).stable_state@, gy, gx)
                    }),
                events@ == spec_events_prefix(
                    old(self).prev_read@,
                    old(self).stable_count@,
                    old(self).stable_state@,
                    old(self).button_presses@,
                    old(self).debounce_reads,
                    y as int * 12,
                ),
            decreases 12 - y,
        {
            let mut x: usize = 0;
            while x < 12
                invariant
                    self.wf(),
                    y < 12,
                    x <= 12,
                    self.display_buffer == old(self).display_buffer,
                    self.button_presses == old(self).button_presses,
                    self.debounce_reads == old(self).debounce_reads,
                    forall|gx: int, gy: int|
                        0 <= gx < 12 && 0 <= gy < 12 ==> #[trigger] grid_at(self.prev_read@, gy, gx)
                            == (if gy * 12 + gx < y * 12 + x {
                            grid_at(old(self).button_presses@, gy, gx)
                        } else {
                            grid_at(old(self).prev_read@, gy, gx)
                        }),
                    forall|gx: int, gy: int|
                        0 <= gx < 12 && 0 <= gy < 12 ==> #[trigger] grid_at(
                            self.stable_count@,
                            gy,
                            gx,
                        ) == (if gy * 12 + gx < y * 12 + x {
                            spec_next_count(
                                grid_at(old(self).prev_read@, gy, gx),
                                grid_at(old(self).stable_count@, gy, gx),
                                grid_at(old(self).button_presses@, gy, gx),
                            )
                        } else {
                            grid_at(old(self).stable_count@, gy, gx)
                        }),
                    forall|gx: int, gy: int|
                        0 <= gx < 12 && 0 <= gy < 12 ==> #[trigger] grid_at(
                            self.stable_state@,
                            gy,
                            gx,
                        ) == (if gy * 12 + gx < y * 12 + x {
                            spec_next_stable(
                                grid_at(old(self).prev_read@, gy, gx),
                                grid_at(old(self).stable_count@, gy, gx),
                                grid_at(old(self).stable_state@, gy, gx),
                                grid_at(old(self).button_presses@, gy, gx),
                                old(self).debounce_reads,
                            )
                        } else {
                            grid_at(old(self).stable_state@, gy, gx)
                        }),
                    events@ == spec_events_prefix(
                        old(self).prev_read@,
                        old(self).stable_count@,
                        old(self).stable_state@,
                        old(self).button_presses@,
                        old(self).debounce_reads,
                        y as int * 12 + x as int,
                    ),
                decreases 12 - x,
            {
                proof {
                    assert(((y * 12 + x) as int) / 12 == y as int && ((y * 12 + x) as int) % 12
                        == x as int) by (nonlinear_arith)
                        requires
                            x < 12 && y < 12,
                    ;
                }
                let ghost prev0 = self.prev_read@;
                let ghost count0 = self.stable_count@;
                let ghost stable0 = self.stable_state@;
                let ghost events0 = events@;
                let cur = self.button_presses[y][x];
                let prev = self.prev_read[y][x];
                let cnt = self.stable_count[y][x];
                if cur == prev {
                    self.stable_count[y][x] = cnt.saturating_add(1);
                } else {
                    self.stable_count[y][x] = 0;
                    self.prev_read[y][x] = cur;
                }
                let ncount = self.stable_count[y][x];
                let stab = self.stable_state[y][x];
                if ncount >= self.debounce_reads && cur != stab {
                    self.stable_state[y][x] = cur;
                    if cur {
                        events.push(ButtonEvent::Pressed(x as u8, y as u8));
                    } else {
                        events.push(ButtonEvent::Released(x as u8, y as u8));
                    }
                }
                proof {
                    let n = y as int * 12 + x as int;
                    let yi = y as int;
                    let xi = x as int;
                    // the probed cell was still unprocessed at entry
                    assert(grid_at(prev0, yi, xi) == grid_at(old(self).prev_read@, yi, xi));
                    assert(grid_at(count0, yi, xi) == grid_at(old(self).stable_count@, yi, xi));
                    assert(grid_at(stable0, yi, xi) == grid_at(old(self).stable_state@, yi, xi));
                    assert(cur == grid_at(old(self).button_presses@, yi, xi));
                    assert forall|gx: int, gy: int| 0 <= gx < 12 && 0 <= gy < 12 implies #[trigger]
                    grid_at(self.prev_read@, gy, gx) == (if gy * 12 + gx < n + 1 {
                        grid_at(old(self).button_presses@, gy, gx)
                    } else {
                        grid_at(old(self).prev_read@, gy, gx)
                    }) by {
                        if gy == yi && gx == xi {
                            assert(grid_at(self.prev_read@, yi, xi) == cur);
                        } else {
                            assert(gy * 12 + gx != n);
                            assert(grid_at(self.prev_read@, gy, gx) == grid_at(prev0, gy, gx));
                        }
                    }
                    assert forall|gx: int, gy: int| 0 <= gx < 12 && 0 <= gy < 12 implies #[trigger]
                    grid_at(self.stable_count@, gy, gx) == (if gy * 12 + gx < n + 1 {
                        spec_next_count(
                            grid_at(old(self).prev_read@, gy, gx),
                            grid_at(old(self).stable_count@, gy, gx),
                            grid_at(old(self).button_presses@, gy, gx),
                        )
                    } else {
                        grid_at(old(self).stable_count@, gy, gx)
                    }) by {
                        if gy == yi && gx == xi {
                            assert(grid_at(self.stable_count@, yi, xi) == ncount);
                        } else {
                            assert(gy * 12 + gx != n);
                            assert(grid_at(self.stable_count@, gy, gx) == grid_at(count0, gy, gx));
                        }
                    }
                    assert forall|gx: int, gy: int| 0 <= gx < 12 && 0 <= gy < 12 implies #[trigger]
                    grid_at(self.stable_state@, gy, gx) == (if gy * 12 + gx < n + 1 {
                        spec_next_stable(
                            grid_at(old(self).prev_read@, gy, gx),
                            grid_at(old(self).stable_count@, gy, gx),
                            grid_at(old(self).stable_state@, gy, gx),
                            grid_at(old(self).button_presses@, gy, gx),
                            old(self).debounce_reads,
                        )
                    } else {
                        grid_at(old(self).stable_state@, gy, gx)
                    }) by {
                        if gy == yi && gx == xi {
                        } else {
                            assert(gy * 12 + gx != n);
                            assert(grid_at(self.stable_state@, gy, gx) == grid_at(stable0, gy, gx));
                        }
                    }
                    assert(events@ == spec_events_prefix(
                        old(self).prev_read@,
                        old(self).stable_count@,
                        old(self).stable_state@,
                        old(self).button_presses@,
                        old(self).debounce_reads,
                        n + 1,
                    )) by {
                        if spec_emits(
                            grid_at(old(self).prev_read@, yi, xi),
                            grid_at(old(self).stable_count@, yi, xi),
                            grid_at(old(self).stable_state@, yi, xi),
                            grid_at(old(self).button_presses@, yi, xi),
                            old(self).debounce_reads,
                        ) {
                            assert(events@ =~= events0 + seq![
                                crate::debounce::spec_cell_event(xi, yi, cur),
                            ]);
                        } else {
                            assert(events@ =~= events0 + Seq::<ButtonEvent>::empty());
                        }
                    }
                }
                x = x + 1;
            }
            y = y + 1;
        }
        events
    }
}

} // verus!
