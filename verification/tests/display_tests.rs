use arcadecoder_hw::display::ArcadeCoderDisplay;
use arcadecoder_hw::framebuffer::FrameBuffer;
use arcadecoder_hw::mapping::get_display_indexes;
use arcadecoder_hw::{BLACK, BLUE, CYAN, GREEN, MAGENTA, RED, WHITE, YELLOW};

fn glyph(rows: [&str; 5]) -> Vec<bool> {
    let mut bits = Vec::new();
    for row in rows.iter() {
        for c in row.chars() {
            bits.push(c == '#');
        }
    }
    bits
}

fn font_5x5() -> Vec<Vec<bool>> {
    vec![
        glyph([".###.", "#...#", "#...#", "#...#", ".###."]),
        glyph(["..#..", "###..", "..#..", "..#..", "#####"]),
        glyph(["####.", "....#", ".###.", "#....", "#####"]),
        glyph(["####.", "....#", "####.", "....#", "####."]),
        glyph(["#..#.", "#..#.", "#..#.", "#####", "...#."]),
        glyph(["#####", "#....", "####.", "....#", "####."]),
        glyph([".###.", "#....", "####.", "#...#", ".###."]),
        glyph(["#####", "....#", "...#.", "..#..", "..#.."]),
        glyph([".###.", "#...#", ".###.", "#...#", ".###."]),
        glyph([".###.", "#...#", ".####", "....#", ".###."]),
    ]
}

fn font_refs(font: &Vec<Vec<bool>>) -> Vec<&[bool]> {
    font.iter().map(|g| g.as_slice()).collect()
}

#[test]
fn mapping_hits_every_slot_once() {
    // 144 pixels onto 6 channels x 3 base bytes x 8 bits, with no collision
    let mut seen = [[[false; 8]; 3]; 6];
    for x in 0..12 {
        for y in 0..12 {
            let (byte_idx, bit_idx) = get_display_indexes((x, y));
            let slot = match byte_idx {
                0 => 0,
                3 => 1,
                6 => 2,
                other => panic!("unexpected byte index {}", other),
            };
            assert!(bit_idx < 8);
            let row = y % 6;
            assert!(
                !seen[row][slot][bit_idx],
                "collision at x={} y={} byte={} bit={}",
                x, y, byte_idx, bit_idx
            );
            seen[row][slot][bit_idx] = true;
        }
    }
    for row in 0..6 {
        for slot in 0..3 {
            for bit in 0..8 {
                assert!(seen[row][slot][bit]);
            }
        }
    }
}

#[test]
fn mapping_matches_quadrant_table() {
    assert_eq!(get_display_indexes((0, 0)), (3, 4));
    assert_eq!(get_display_indexes((3, 5)), (3, 7));
    assert_eq!(get_display_indexes((0, 6)), (3, 0));
    assert_eq!(get_display_indexes((3, 11)), (3, 3));
    assert_eq!(get_display_indexes((4, 0)), (0, 0));
    assert_eq!(get_display_indexes((11, 5)), (0, 7));
    assert_eq!(get_display_indexes((4, 6)), (6, 0));
    assert_eq!(get_display_indexes((11, 11)), (6, 7));
}

#[test]
fn set_pixel_readback_all_colors_all_coordinates() {
    let colors = [WHITE, YELLOW, CYAN, RED, MAGENTA, GREEN, BLUE, BLACK];
    for &color in colors.iter() {
        let mut fb = FrameBuffer::new();
        for x in 0..12 {
            for y in 0..12 {
                fb.set_pixel((x, y), color);
                assert_eq!(fb.get_pixel((x, y)), Some(color), "at ({}, {})", x, y);
            }
        }
    }
}

#[test]
fn set_pixel_packs_the_expected_raw_bytes() {
    // (0, 0) maps to byte 3, bit 4 of frame row 0; white drives all three
    // active-low planes, clearing bit 4 of bytes 3 (green), 4 (red), 5 (blue)
    let mut fb = FrameBuffer::new();
    fb.set_pixel((0, 0), WHITE);
    for r in 0..6 {
        for b in 0..9 {
            let expected = if r == 0 && (3..=5).contains(&b) { 0xEF } else { 0xFF };
            assert_eq!(fb.rows[r][b], expected, "row {} byte {}", r, b);
        }
    }
    // red alone touches only the red plane byte
    let mut fb2 = FrameBuffer::new();
    fb2.set_pixel((11, 11), RED);
    // (11, 11) maps to byte 6, bit 7 of frame row 5
    for r in 0..6 {
        for b in 0..9 {
            let expected = if r == 5 && b == 7 { 0x7F } else { 0xFF };
            assert_eq!(fb2.rows[r][b], expected, "row {} byte {}", r, b);
        }
    }
}

#[test]
fn set_pixel_leaves_other_pixels_alone() {
    let mut fb = FrameBuffer::new();
    fb.set_pixel((2, 3), RED);
    fb.set_pixel((2, 9), GREEN);  // same channel, other half of the row pair
    fb.set_pixel((3, 3), BLUE);  // same byte, neighboring bit
    assert_eq!(fb.get_pixel((2, 3)), Some(RED));
    assert_eq!(fb.get_pixel((2, 9)), Some(GREEN));
    assert_eq!(fb.get_pixel((3, 3)), Some(BLUE));
    for x in 0..12 {
        for y in 0..12 {
            if (x, y) != (2, 3) && (x, y) != (2, 9) && (x, y) != (3, 3) {
                assert_eq!(fb.get_pixel((x, y)), Some(BLACK), "at ({}, {})", x, y);
            }
        }
    }
}

#[test]
fn set_pixel_out_of_range_is_ignored() {
    let mut fb = FrameBuffer::new();
    fb.set_pixel((3, 3), CYAN);
    fb.set_pixel((12, 0), WHITE);
    fb.set_pixel((0, 12), WHITE);
    fb.set_pixel((usize::MAX, usize::MAX), WHITE);
    assert_eq!(fb.get_pixel((12, 0)), None);
    for x in 0..12 {
        for y in 0..12 {
            let expected = if (x, y) == (3, 3) { CYAN } else { BLACK };
            assert_eq!(fb.get_pixel((x, y)), Some(expected));
        }
    }
}

#[test]
fn clear_turns_every_pixel_off() {
    let mut fb = FrameBuffer::new();
    fb.draw_rect((0, 0), (11, 11), WHITE);
    fb.set_pixel((5, 5), MAGENTA);
    fb.clear();
    for x in 0..12 {
        for y in 0..12 {
            assert_eq!(fb.get_pixel((x, y)), Some(BLACK), "at ({}, {})", x, y);
        }
    }
}

#[test]
fn draw_rect_paints_exactly_the_inclusive_block() {
    let mut fb = FrameBuffer::new();
    fb.draw_rect((0, 0), (11, 11), YELLOW);
    fb.draw_rect((2, 2), (4, 4), RED);
    for x in 0..12 {
        for y in 0..12 {
            let inside = (2..=4).contains(&x) && (2..=4).contains(&y);
            let expected = if inside { RED } else { YELLOW };
            assert_eq!(fb.get_pixel((x, y)), Some(expected), "at ({}, {})", x, y);
        }
    }
}

#[test]
fn draw_rect_clips_to_the_matrix() {
    let mut fb = FrameBuffer::new();
    fb.draw_rect((10, 10), (20, 20), GREEN);
    for x in 0..12 {
        for y in 0..12 {
            let inside = x >= 10 && y >= 10;
            let expected = if inside { GREEN } else { BLACK };
            assert_eq!(fb.get_pixel((x, y)), Some(expected));
        }
    }
}

#[test]
fn draw_digit_seven_reproduces_the_glyph() {
    let font = font_5x5();
    let refs = font_refs(&font);
    let mut fb = FrameBuffer::new();
    fb.draw_digit(7, &refs, (5, 5), (0, 0), WHITE);
    for x in 0..12 {
        for y in 0..12 {
            let expected = if x < 5 && y < 5 && font[7][y * 5 + x] {
                WHITE
            } else {
                BLACK
            };
            assert_eq!(fb.get_pixel((x, y)), Some(expected), "at ({}, {})", x, y);
        }
    }
}

#[test]
fn draw_digit_takes_the_value_modulo_ten() {
    let font = font_5x5();
    let refs = font_refs(&font);
    let mut direct = FrameBuffer::new();
    direct.draw_digit(3, &refs, (5, 5), (6, 0), CYAN);
    let mut wrapped = FrameBuffer::new();
    wrapped.draw_digit(73, &refs, (5, 5), (6, 0), CYAN);
    for x in 0..12 {
        for y in 0..12 {
            assert_eq!(direct.get_pixel((x, y)), wrapped.get_pixel((x, y)));
        }
    }
}

#[test]
fn draw_digit_skips_pixels_outside_the_matrix() {
    let font = font_5x5();
    let refs = font_refs(&font);
    let mut fb = FrameBuffer::new();
    fb.draw_digit(8, &refs, (5, 5), (9, 9), WHITE);
    for x in 0..12 {
        for y in 0..12 {
            let expected = if x >= 9 && y >= 9 && font[8][(y - 9) * 5 + (x - 9)] {
                WHITE
            } else {
                BLACK
            };
            assert_eq!(fb.get_pixel((x, y)), Some(expected), "at ({}, {})", x, y);
        }
    }
}

#[test]
fn draw_char_draws_digits_like_draw_digit() {
    let font = font_5x5();
    let refs = font_refs(&font);
    let mut by_char = FrameBuffer::new();
    by_char.draw_char('4', &refs, (5, 5), (1, 2), GREEN);
    let mut by_digit = FrameBuffer::new();
    by_digit.draw_digit(4, &refs, (5, 5), (1, 2), GREEN);
    for x in 0..12 {
        for y in 0..12 {
            assert_eq!(by_char.get_pixel((x, y)), by_digit.get_pixel((x, y)));
        }
    }
}

#[test]
fn the_display_only_driver_draws_the_same_way() {
    let font = font_5x5();
    let refs = font_refs(&font);
    let mut d = ArcadeCoderDisplay::new();
    assert!(d.anti_ghost);
    d.draw_digit(9, &refs, (5, 5), (6, 0), WHITE);
    d.set_pixel((0, 11), RED);
    let mut fb = FrameBuffer::new();
    fb.draw_digit(9, &refs, (5, 5), (6, 0), WHITE);
    fb.set_pixel((0, 11), RED);
    for x in 0..12 {
        for y in 0..12 {
            assert_eq!(d.get_pixel((x, y)), fb.get_pixel((x, y)));
        }
    }
    d.clear();
    for x in 0..12 {
        for y in 0..12 {
            assert_eq!(d.get_pixel((x, y)), Some(BLACK));
        }
    }
}

#[test]
fn draw_char_ignores_unknown_characters_and_missing_glyphs() {
    let font = font_5x5();
    let refs = font_refs(&font);
    let mut fb = FrameBuffer::new();
    fb.draw_char('?', &refs, (5, 5), (0, 0), WHITE);
    fb.draw_char('a', &refs, (5, 5), (0, 0), WHITE);
    // 'A' maps to glyph 10, which this ten-glyph font lacks
    fb.draw_char('A', &refs, (5, 5), (0, 0), WHITE);
    for x in 0..12 {
        for y in 0..12 {
            assert_eq!(fb.get_pixel((x, y)), Some(BLACK));
        }
    }
}
