//! The sensing side of the shared bus.
//!
//! While a channel is deselected, the engine puts a probe frame on the
//! shift-register bus: all bits high except the red-plane bit of one cell,
//! which is driven low. The channel's shared input line then reads active
//! exactly when some pressed button of that channel's row pair has its red
//! bit driven low — and since a probe frame drives exactly one such bit, the
//! line isolates one cell at a time. This module holds that electrical model
//! of the line, the probe frames, the proof that a probe isolates its cell,
//! and the decision logic that turns raw line levels into coordinates.
//!
//! [`row_pressed`] and [`read_buttons`] serve the coarse input path: read
//! the six lines directly while deselected, and fine-probe only a row pair
//! that reports activity. That path resolves one press at a time; the
//! per-cell engine of [`crate::debounce`] is the one that tracks
//! simultaneous presses.

use vstd::prelude::*;

use crate::framebuffer::{blank_row, lemma_plane_off_ff, plane_on};
use crate::mapping::{
    get_display_indexes, lemma_display_indexes_in_range, lemma_display_indexes_injective,
    spec_bit_index, spec_byte_index,
};
use crate::{grid_at, grid_wf, Coordinates};

verus! {

/// The level of the shared input line of channel `ch` while `frame` sits in
/// the shift register: active when some pressed cell of the channel's row
/// pair has its red-plane bit driven low by the frame.
pub open spec fn spec_line_active(pressed: Seq<Vec<bool>>, ch: int, frame: Seq<u8>) -> bool {
    exists|x: int, half: int|
        0 <= x < 12 && 0 <= half < 2 && #[trigger] grid_at(pressed, ch + 6 * half, x) && plane_on(
            frame[spec_byte_index(x, ch + 6 * half) + 1],
            spec_bit_index(x, ch + 6 * half) as u8,
        )
}

/// Byte `j` of the probe frame for cell `(x, y)`: all bits high except the
/// cell's red-plane bit.
pub open spec fn spec_probe_byte(x: int, y: int, j: int) -> u8 {
    if j == spec_byte_index(x, y) + 1 {
        0xFFu8 & !(1u8 << (spec_bit_index(x, y) as u8))
    } else {
        0xFFu8
    }
}

/// The probed bit itself reads low in a probe frame.
pub proof fn lemma_probe_bit_self(i: u8)
    requires
        i < 8,
    ensures
        plane_on(0xFFu8 & !(1u8 << i), i),
{
    assert((0xFFu8 & !(1u8 << i)) & (1u8 << i) == 0) by (bit_vector)
        requires
            i < 8,
    ;
}

/// Every other bit of the probe byte still reads high.
pub proof fn lemma_probe_bit_other(i: u8, j: u8)
    requires
        i < 8,
        j < 8,
        i != j,
    ensures
        !plane_on(0xFFu8 & !(1u8 << i), j),
{
    assert((0xFFu8 & !(1u8 << i)) & (1u8 << j) != 0) by (bit_vector)
        requires
            i < 8 && j < 8 && i != j,
    ;
}

/// Raising the probed bit again restores the all-high frame.
pub proof fn lemma_restore_bit(i: u8)
    requires
        i < 8,
    ensures
        ((0xFFu8 & !(1u8 << i)) | (1u8 << i)) == 0xFFu8,
{
    assert(((0xFFu8 & !(1u8 << i)) | (1u8 << i)) == 0xFFu8) by (bit_vector)
        requires
            i < 8,
    ;
}

/// The probe frame for one cell of the matrix, ready for the transport.
pub fn probe_pattern(pos: Coordinates) -> (buf: Vec<u8>)
    requires
        pos.0 < 12,
        pos.1 < 12,
    ensures
        buf@.len() == 9,
        forall|j: int| 0 <= j < 9 ==> buf@[j] == spec_probe_byte(pos.0 as int, pos.1 as int, j),
{
    proof {
        lemma_display_indexes_in_range(pos.0 as int, pos.1 as int);
    }
    let mut buf = blank_row();
    let (b, i) = get_display_indexes(pos);
    let v = buf[b + 1];
    buf[b + 1] = v & !(1u8 << i);
    buf
}

/// Because a probe frame drives exactly one red bit low, the line level it
/// produces is exactly the probed cell's pressed state: no other cell of the
/// row pair — in particular not the probed column's partner in the other
/// half — can pull the line.
pub proof fn lemma_probe_isolates(pressed: Seq<Vec<bool>>, ch: int, px: int, py: int, frame: Seq<u8>)
    requires
        grid_wf(pressed, 12, 12),
        0 <= ch < 6,
        0 <= px < 12,
        py == ch || py == ch + 6,
        frame.len() == 9,
        forall|j: int| 0 <= j < 9 ==> frame[j] == spec_probe_byte(px, py, j),
    ensures
        spec_line_active(pressed, ch, frame) == grid_at(pressed, py, px),
{
    let b = spec_byte_index(px, py);
    let i = spec_bit_index(px, py) as u8;
    lemma_display_indexes_in_range(px, py);
    lemma_probe_bit_self(i);
    assert(frame[b + 1] == (0xFFu8 & !(1u8 << i)));
    if grid_at(pressed, py, px) {
        let half = if py < 6 {
            0int
        } else {
            1int
        };
        assert(0 <= px < 12 && 0 <= half < 2 && grid_at(pressed, ch + 6 * half, px) && plane_on(
            frame[spec_byte_index(px, ch + 6 * half) + 1],
            spec_bit_index(px, ch + 6 * half) as u8,
        ));
    }
    if spec_line_active(pressed, ch, frame) {
        let (x2, h2) = choose|x2: int, h2: int|
            0 <= x2 < 12 && 0 <= h2 < 2 && #[trigger] grid_at(pressed, ch + 6 * h2, x2)
                && plane_on(
                frame[spec_byte_index(x2, ch + 6 * h2) + 1],
                spec_bit_index(x2, ch + 6 * h2) as u8,
            );
        let y2 = ch + 6 * h2;
        lemma_display_indexes_in_range(x2, y2);
        if x2 != px || y2 != py {
            let b2 = spec_byte_index(x2, y2);
            let i2 = spec_bit_index(x2, y2) as u8;
            if b2 == b && i2 == i {
                lemma_display_indexes_injective(x2, y2, px, py);
            }
            if b2 == b {
                lemma_probe_bit_other(i, i2);
            } else {
                assert(frame[b2 + 1] == 0xFFu8);
                lemma_plane_off_ff(i2);
            }
            assert(false);
        }
    }
}

/// The level the shared input line of `channel` settles to while `frame` is
/// on the bus, given which buttons are physically pressed. This walks the 24
/// cells of the channel's row pair, exactly as the electrical OR over the
/// row pair behaves.
pub fn line_level(pressed: &Vec<Vec<bool>>, channel: usize, frame: &Vec<u8>) -> (active: bool)
    requires
        grid_wf(pressed@, 12, 12),
        channel < 6,
        frame@.len() == 9,
    ensures
        active == spec_line_active(pressed@, channel as int, frame@),
{
    let mut half: usize = 0;
    while half < 2
        invariant
            channel < 6,
            half <= 2,
            grid_wf(pressed@, 12, 12),
            frame@.len() == 9,
            forall|x2: int, h2: int|
                0 <= x2 < 12 && 0 <= h2 < half ==> !(#[trigger] grid_at(
                    pressed@,
                    channel + 6 * h2,
                    x2,
                ) && plane_on(
                    frame@[spec_byte_index(x2, channel + 6 * h2) + 1],
                    spec_bit_index(x2, channel + 6 * h2) as u8,
                )),
        decreases 2 - half,
    {
        let y = channel + 6 * half;
        let mut x: usize = 0;
        while x < 12
            invariant
                channel < 6,
                half < 2,
                x <= 12,
                y == channel + 6 * half,
                grid_wf(pressed@, 12, 12),
                frame@.len() == 9,
                forall|x2: int, h2: int|
                    0 <= x2 < 12 && 0 <= h2 < half ==> !(#[trigger] grid_at(
                        pressed@,
                        channel + 6 * h2,
                        x2,
                    ) && plane_on(
                        frame@[spec_byte_index(x2, channel + 6 * h2) + 1],
                        spec_bit_index(x2, channel + 6 * h2) as u8,
                    )),
                forall|x2: int|
                    0 <= x2 < x ==> !(#[trigger] grid_at(pressed@, channel + 6 * half, x2)
                        && plane_on(
                        frame@[spec_byte_index(x2, channel + 6 * half) + 1],
                        spec_bit_index(x2, channel + 6 * half) as u8,
                    )),
            decreases 12 - x,
        {
            proof {
                lemma_display_indexes_in_range(x as int, y as int);
            }
            let (b, i) = get_display_indexes((x, y));
            if pressed[y][x] && (frame[b + 1] & (1u8 << i)) == 0 {
                proof {
                    let xi = x as int;
                    let hi = half as int;
                    assert(0 <= xi < 12 && 0 <= hi < 2 && grid_at(
                        pressed@,
                        channel as int + 6 * hi,
                        xi,
                    ) && plane_on(
                        frame@[spec_byte_index(xi, channel as int + 6 * hi) + 1],
                        spec_bit_index(xi, channel as int + 6 * hi) as u8,
                    ));
                }
                return true;
            }
            x = x + 1;
        }
        half = half + 1;
    }
    false
}

/// The first input line reporting activity, scanning lines 0 to 5 in order;
/// `None` when every line is quiet.
pub fn row_pressed(lines: &Vec<bool>) -> (r: Option<usize>)
    requires
        lines@.len() == 6,
    ensures
        match r {
            Some(row) => row < 6 && lines@[row as int] && (forall|i: int|
                0 <= i < row ==> !lines@[i]),
            None => forall|i: int| 0 <= i < 6 ==> !lines@[i],
        },
{
    if lines[0] {
        Some(0)
    } else if lines[1] {
        Some(1)
    } else if lines[2] {
        Some(2)
    } else if lines[3] {
        Some(3)
    } else if lines[4] {
        Some(4)
    } else if lines[5] {
        Some(5)
    } else {
        None
    }
}

/// Where cell `(x, y)` falls in the probe order of a row pair: the reported
/// row's twelve columns first, then its partner row's.
pub open spec fn spec_probe_order(row: int, x: int, y: int) -> int {
    if y == row {
        x
    } else {
        12 + x
    }
}

/// Probe the row pair of `row` cell by cell and return the first pressed
/// button found, in probe order; `None` when none of the pair's 24 cells is
/// pressed.
pub fn read_buttons(row: usize, pressed: &Vec<Vec<bool>>) -> (r: Option<Coordinates>)
    requires
        row < 6,
        grid_wf(pressed@, 12, 12),
    ensures
        match r {
            Some(pos) => pos.0 < 12 && (pos.1 == row || pos.1 == row + 6) && grid_at(
                pressed@,
                pos.1 as int,
                pos.0 as int,
            ) && (forall|x2: int, y2: int|
                0 <= x2 < 12 && (y2 == row || y2 == row + 6) && spec_probe_order(
                    row as int,
                    x2,
                    y2,
                ) < spec_probe_order(row as int, pos.0 as int, pos.1 as int) ==> !(
                #[trigger] grid_at(pressed@, y2, x2))),
            None => forall|x2: int, y2: int|
                0 <= x2 < 12 && (y2 == row || y2 == row + 6) ==> !(#[trigger] grid_at(
                    pressed@,
                    y2,
                    x2,
                )),
        },
{
    let mut buf = blank_row();
    let mut half: usize = 0;
    while half < 2
        invariant
            row < 6,
            half <= 2,
            grid_wf(pressed@, 12, 12),
            buf@.len() == 9,
            forall|j: int| 0 <= j < 9 ==> buf@[j] == 0xFFu8,
            forall|x2: int, y2: int|
                0 <= x2 < 12 && (y2 == row || y2 == row + 6) && spec_probe_order(row as int, x2, y2)
                    < 12 * half ==> !(#[trigger] grid_at(pressed@, y2, x2)),
        decreases 2 - half,
    {
        let y = row + 6 * half;
        let mut x: usize = 0;
        while x < 12
            invariant
                row < 6,
                half < 2,
                x <= 12,
                y == row + 6 * half,
                grid_wf(pressed@, 12, 12),
                buf@.len() == 9,
                forall|j: int| 0 <= j < 9 ==> buf@[j] == 0xFFu8,
                forall|x2: int, y2: int|
                    0 <= x2 < 12 && (y2 == row || y2 == row + 6) && spec_probe_order(
                        row as int,
                        x2,
                        y2,
                    ) < 12 * half + x ==> !(#[trigger] grid_at(pressed@, y2, x2)),
            decreases 12 - x,
        {
            proof {
                lemma_display_indexes_in_range(x as int, y as int);
            }
            let (b, i) = get_display_indexes((x, y));
            let v = buf[b + 1];
            buf[b + 1] = v & !(1u8 << i);
            let hit = line_level(pressed, row, &buf);
            proof {
                lemma_probe_isolates(pressed@, row as int, x as int, y as int, buf@);
            }
            let v2 = buf[b + 1];
            buf[b + 1] = v2 | (1u8 << i);
            proof {
                lemma_restore_bit(i as u8);
            }
            if hit {
                return Some((x, y));
            }
            x = x + 1;
        }
        half = half + 1;
    }
    None
}

} // verus!
