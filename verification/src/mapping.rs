//! The coordinate-to-bit mapping of the display.
//!
//! Every frame row is 9 bytes wide and carries the 24 pixels of one row pair
//! (two of the 12 logical rows share one multiplexed channel). A pixel's
//! color lives in three consecutive bytes: green at the base byte, red one
//! past it, blue two past it. The base byte and the bit inside it are fixed
//! by the board's wiring, quadrant by quadrant; the table below reproduces
//! that wiring and must not be re-derived.

use vstd::prelude::*;

use crate::Coordinates;

verus! {

/// The base (green-plane) byte of pixel `(x, y)` inside its frame row.
pub open spec fn spec_byte_index(x: int, y: int) -> int {
    if x < 4 {
        3
    } else if y < 6 {
        0
    } else {
        6
    }
}

/// The bit position of pixel `(x, y)` inside each of its three plane bytes.
pub open spec fn spec_bit_index(x: int, y: int) -> int {
    if x < 4 {
        if y < 6 {
            4 + x
        } else {
            x
        }
    } else {
        x - 4
    }
}

/// The frame row (channel) that carries logical row `y`.
pub open spec fn spec_row_index(y: int) -> int {
    y % 6
}

/// Compute the base byte and bit of a pixel inside its frame row.
///
/// The first value is the byte index of the green plane (red and blue follow
/// at the next two bytes), the second the bit position within those bytes.
pub fn get_display_indexes(pos: Coordinates) -> (r: (usize, usize))
    ensures
        r.0 == spec_byte_index(pos.0 as int, pos.1 as int),
        r.1 == spec_bit_index(pos.0 as int, pos.1 as int),
{
    match (pos.0 < 4, pos.1 < 6) {
        (true, true) => (3, 4 + pos.0),
        (true, false) => (3, pos.0),
        (false, true) => (0, pos.0 - 4),
        (false, false) => (6, pos.0 - 4),
    }
}

/// The byte index is always one of the three plane-base columns, and the bit
/// index always fits in a byte, for coordinates on the matrix.
pub proof fn lemma_display_indexes_in_range(x: int, y: int)
    requires
        0 <= x < 12,
        0 <= y < 12,
    ensures
        spec_byte_index(x, y) == 0 || spec_byte_index(x, y) == 3 || spec_byte_index(x, y) == 6,
        0 <= spec_bit_index(x, y) < 8,
        0 <= spec_row_index(y) < 6,
{
}

/// Within one row pair, the mapping never sends two distinct pixels to the
/// same byte and bit: the 24 pixels that share a channel occupy 24 distinct
/// slots of its 9-byte frame row.
pub proof fn lemma_display_indexes_injective(x1: int, y1: int, x2: int, y2: int)
    requires
        0 <= x1 < 12,
        0 <= y1 < 12,
        0 <= x2 < 12,
        0 <= y2 < 12,
        spec_row_index(y1) == spec_row_index(y2),
        spec_byte_index(x1, y1) == spec_byte_index(x2, y2),
        spec_bit_index(x1, y1) == spec_bit_index(x2, y2),
    ensures
        x1 == x2,
        y1 == y2,
{
    assert(y1 == y2 || y1 == y2 + 6 || y2 == y1 + 6);
}

/// Every slot of a frame row — each plane-base byte in {0, 3, 6} and each bit
/// position 0..8, on each of the six channels — is hit by some pixel: with
/// injectivity, the mapping is a bijection between the 144 pixels and the
/// 144 slots.
pub proof fn lemma_display_indexes_surjective(b: int, i: int, r: int)
    requires
        b == 0 || b == 3 || b == 6,
        0 <= i < 8,
        0 <= r < 6,
    ensures
        exists|x: int, y: int|
            0 <= x < 12 && 0 <= y < 12 && spec_row_index(y) == r && spec_byte_index(x, y) == b
                && spec_bit_index(x, y) == i,
{
    if b == 3 {
        if i >= 4 {
            assert(0 <= i - 4 < 12 && 0 <= r < 12 && spec_row_index(r) == r && spec_byte_index(
                i - 4,
                r,
            ) == b && spec_bit_index(i - 4, r) == i);
        } else {
            assert(0 <= i < 12 && 0 <= r + 6 < 12 && spec_row_index(r + 6) == r && spec_byte_index(
                i,
                r + 6,
            ) == b && spec_bit_index(i, r + 6) == i);
        }
    } else if b == 0 {
        assert(0 <= i + 4 < 12 && 0 <= r < 12 && spec_row_index(r) == r && spec_byte_index(
            i + 4,
            r,
        ) == b && spec_bit_index(i + 4, r) == i);
    } else {
        assert(0 <= i + 4 < 12 && 0 <= r + 6 < 12 && spec_row_index(r + 6) == r && spec_byte_index(
            i + 4,
            r + 6,
        ) == b && spec_bit_index(i + 4, r + 6) == i);
    }
}

} // verus!
