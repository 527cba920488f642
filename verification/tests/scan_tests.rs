use arcadecoder_hw::coder::ArcadeCoder;
use arcadecoder_hw::display::channel_levels;
use arcadecoder_hw::inputs::{line_level, probe_pattern, read_buttons, row_pressed};
use arcadecoder_hw::mapping::get_display_indexes;
use arcadecoder_hw::RED;

fn no_presses() -> Vec<Vec<bool>> {
    vec![vec![false; 12]; 12]
}

#[test]
fn scan_reports_a_single_press_exactly() {
    // row 3, column 5 pressed and nothing else
    let mut pressed = no_presses();
    pressed[3][5] = true;
    let mut ac = ArcadeCoder::new();
    ac.scan(&pressed);
    for y in 0..12 {
        for x in 0..12 {
            assert_eq!(
                ac.button_pressed((x, y)),
                y == 3 && x == 5,
                "at x={} y={}",
                x,
                y
            );
        }
    }
}

#[test]
fn scan_separates_the_halves_of_a_row_pair() {
    // rows 3 and 9 share channel 3 and one input line; a press on row 9
    // must not shadow row 3
    let mut pressed = no_presses();
    pressed[9][5] = true;
    let mut ac = ArcadeCoder::new();
    ac.scan(&pressed);
    assert!(ac.button_pressed((5, 9)));
    assert!(!ac.button_pressed((5, 3)));
    for y in 0..12 {
        for x in 0..12 {
            assert_eq!(ac.button_pressed((x, y)), y == 9 && x == 5);
        }
    }
}

#[test]
fn scan_tracks_simultaneous_presses() {
    let mut pressed = no_presses();
    pressed[0][0] = true;
    pressed[0][11] = true;
    pressed[6][0] = true;
    pressed[11][11] = true;
    pressed[5][7] = true;
    let mut ac = ArcadeCoder::new();
    ac.scan(&pressed);
    for y in 0..12 {
        for x in 0..12 {
            assert_eq!(ac.button_pressed((x, y)), pressed[y][x], "at x={} y={}", x, y);
        }
    }
}

#[test]
fn scan_clears_the_previous_pass() {
    let mut pressed = no_presses();
    pressed[2][2] = true;
    let mut ac = ArcadeCoder::new();
    ac.scan(&pressed);
    assert!(ac.button_pressed((2, 2)));
    ac.scan(&no_presses());
    for y in 0..12 {
        for x in 0..12 {
            assert!(!ac.button_pressed((x, y)));
        }
    }
}

#[test]
fn scan_leaves_the_display_buffer_alone() {
    let mut ac = ArcadeCoder::new();
    ac.set_pixel((4, 4), RED);
    let mut pressed = no_presses();
    pressed[4][4] = true;
    ac.scan(&pressed);
    assert_eq!(ac.get_pixel((4, 4)), Some(RED));
}

#[test]
fn probe_pattern_drives_exactly_one_red_bit_low() {
    let buf = probe_pattern((5, 3));
    let (byte_idx, bit_idx) = get_display_indexes((5, 3));
    assert_eq!(buf.len(), 9);
    for (j, &b) in buf.iter().enumerate() {
        if j == byte_idx + 1 {
            assert_eq!(b, 0xFF & !(1u8 << bit_idx));
        } else {
            assert_eq!(b, 0xFF);
        }
    }
}

#[test]
fn line_level_answers_for_the_probed_cell_only() {
    let mut pressed = no_presses();
    pressed[3][5] = true;
    // probing the pressed cell pulls the line
    assert!(line_level(&pressed, 3, &probe_pattern((5, 3))));
    // probing its partner row or a neighboring column does not
    assert!(!line_level(&pressed, 3, &probe_pattern((5, 9))));
    assert!(!line_level(&pressed, 3, &probe_pattern((4, 3))));
    // an all-high frame drives nothing low, so the line stays quiet
    assert!(!line_level(&pressed, 3, &vec![0xFF; 9]));
}

#[test]
fn row_pressed_reports_the_first_active_line() {
    assert_eq!(row_pressed(&vec![false; 6]), None);
    let mut lines = vec![false; 6];
    lines[2] = true;
    lines[4] = true;
    assert_eq!(row_pressed(&lines), Some(2));
    lines[0] = true;
    assert_eq!(row_pressed(&lines), Some(0));
}

#[test]
fn probing_cell_by_cell_matches_a_scan_pass() {
    let mut pressed = no_presses();
    pressed[7][2] = true;
    pressed[1][11] = true;
    let mut by_scan = ArcadeCoder::new();
    by_scan.scan(&pressed);
    // the seam a hardware loop uses: one probe frame per cell, one line
    // read per frame, one recorded outcome
    let mut by_probe = ArcadeCoder::new();
    by_probe.begin_scan();
    for channel in 0..6 {
        for x in 0..12 {
            for y in [channel, channel + 6] {
                let frame = probe_pattern((x, y));
                let hit = line_level(&pressed, channel, &frame);
                by_probe.record_probe((x, y), hit);
            }
        }
    }
    for y in 0..12 {
        for x in 0..12 {
            assert_eq!(by_probe.button_pressed((x, y)), by_scan.button_pressed((x, y)));
            assert_eq!(by_probe.button_pressed((x, y)), pressed[y][x]);
        }
    }
}

#[test]
fn channel_levels_follow_the_multiplexer_table() {
    assert_eq!(channel_levels(Some(0)), (false, true, false));
    assert_eq!(channel_levels(Some(1)), (true, true, false));
    assert_eq!(channel_levels(Some(2)), (true, false, true));
    assert_eq!(channel_levels(Some(3)), (false, false, true));
    assert_eq!(channel_levels(Some(4)), (true, false, false));
    assert_eq!(channel_levels(Some(5)), (false, true, true));
    assert_eq!(channel_levels(Some(7)), (true, true, true));
    // everything else deselects: all address lines low
    assert_eq!(channel_levels(Some(6)), (false, false, false));
    assert_eq!(channel_levels(Some(42)), (false, false, false));
    assert_eq!(channel_levels(None), (false, false, false));
}

#[test]
fn read_buttons_probes_the_reported_row_first() {
    let mut pressed = no_presses();
    pressed[9][5] = true;
    assert_eq!(read_buttons(3, &pressed), Some((5, 9)));
    // a press in the reported row itself wins over the partner row
    pressed[3][7] = true;
    assert_eq!(read_buttons(3, &pressed), Some((7, 3)));
    // and a lower column in the same row wins again
    pressed[3][1] = true;
    assert_eq!(read_buttons(3, &pressed), Some((1, 3)));
    assert_eq!(read_buttons(0, &pressed), None);
}
