use arcadecoder_hw::coder::ArcadeCoder;
use arcadecoder_hw::scoreboard::{render_snapshot, snapshot_from_state, State};
use arcadecoder_hw::{ButtonEvent, BLACK, GREEN, MAGENTA, RED, WHITE};

fn glyph(rows: [&str; 5]) -> Vec<bool> {
    let mut bits = Vec::new();
    for row in rows.iter() {
        for c in row.chars() {
            bits.push(c == '#');
        }
    }
    bits
}

fn font_5x5() -> Vec<Vec<bool>> {
    vec![
        glyph([".###.", "#...#", "#...#", "#...#", ".###."]),
        glyph(["..#..", "###..", "..#..", "..#..", "#####"]),
        glyph(["####.", "....#", ".###.", "#....", "#####"]),
        glyph(["####.", "....#", "####.", "....#", "####."]),
        glyph(["#..#.", "#..#.", "#..#.", "#####", "...#."]),
        glyph(["#####", "#....", "####.", "....#", "####."]),
        glyph([".###.", "#....", "####.", "#...#", ".###."]),
        glyph(["#####", "....#", "...#.", "..#..", "..#.."]),
        glyph([".###.", "#...#", ".###.", "#...#", ".###."]),
        glyph([".###.", "#...#", ".####", "....#", ".###."]),
    ]
}

#[test]
fn a_fresh_match_plays_to_eleven() {
    let s = State::new();
    assert_eq!(s.score_a, 0);
    assert_eq!(s.score_b, 0);
    assert_eq!(s.win_threshold, 11);
    assert_eq!(s.win_diff, 2);
    assert_eq!(snapshot_from_state(&s), (0, 0, 11, false, false));
}

#[test]
fn scores_move_by_one_and_stop_at_the_edges() {
    let mut s = State::new();
    s.inc_score_a();
    s.inc_score_a();
    s.inc_score_b();
    assert_eq!(s.score_a, 2);
    assert_eq!(s.score_b, 1);
    s.dec_score_a();
    assert_eq!(s.score_a, 1);
    // a score of zero stays at zero
    s.dec_score_b();
    s.dec_score_b();
    assert_eq!(s.score_b, 0);
    // and a full counter stays full
    for _ in 0..300 {
        s.inc_score_a();
    }
    assert_eq!(s.score_a, 255);
}

#[test]
fn winning_needs_the_threshold_and_a_margin_of_two() {
    let mut s = State::new();
    for _ in 0..10 {
        s.inc_score_a();
    }
    for _ in 0..9 {
        s.inc_score_b();
    }
    // 10:9 — not at the threshold yet
    assert_eq!(snapshot_from_state(&s).3, false);
    s.inc_score_a();
    // 11:9 — eleven reached, two apart: player A wins
    let snap = snapshot_from_state(&s);
    assert_eq!((snap.3, snap.4), (true, false));
    s.inc_score_b();
    // 11:10 — the margin is gone again
    assert_eq!(snapshot_from_state(&s).3, false);
}

#[test]
fn reset_clears_the_scores_but_keeps_the_threshold() {
    let mut s = State::new();
    s.inc_score_a();
    s.inc_score_b();
    s.win_threshold = 21;
    s.reset();
    assert_eq!(s.score_a, 0);
    assert_eq!(s.score_b, 0);
    assert_eq!(s.win_threshold, 21);
}

#[test]
fn presses_in_each_quadrant_adjust_the_right_score() {
    let mut s = State::new();
    assert!(s.apply_event(ButtonEvent::Pressed(0, 0)));
    assert_eq!((s.score_a, s.score_b), (1, 0));
    assert!(s.apply_event(ButtonEvent::Pressed(5, 5)));
    assert_eq!((s.score_a, s.score_b), (2, 0));
    assert!(s.apply_event(ButtonEvent::Pressed(6, 0)));
    assert_eq!((s.score_a, s.score_b), (2, 1));
    assert!(s.apply_event(ButtonEvent::Pressed(2, 8)));
    assert_eq!((s.score_a, s.score_b), (1, 1));
    assert!(s.apply_event(ButtonEvent::Pressed(11, 10)));
    assert_eq!((s.score_a, s.score_b), (1, 0));
}

#[test]
fn the_bottom_row_resets_and_its_middle_toggles_the_threshold() {
    let mut s = State::new();
    s.inc_score_a();
    assert!(s.apply_event(ButtonEvent::Pressed(0, 11)));
    assert_eq!((s.score_a, s.score_b), (0, 0));
    assert!(s.apply_event(ButtonEvent::Pressed(5, 11)));
    assert_eq!(s.win_threshold, 21);
    assert!(s.apply_event(ButtonEvent::Pressed(6, 11)));
    assert_eq!(s.win_threshold, 11);
}

#[test]
fn releases_change_nothing() {
    let mut s = State::new();
    s.inc_score_a();
    let before = snapshot_from_state(&s);
    assert!(!s.apply_event(ButtonEvent::Released(0, 0)));
    assert_eq!(snapshot_from_state(&s), before);
}

#[test]
fn rendering_shows_both_scores_as_digits() {
    let font = font_5x5();
    let refs: Vec<&[bool]> = font.iter().map(|g| g.as_slice()).collect();
    let mut ac = ArcadeCoder::new();
    // 7 : 12 — tens digit above ones digit for each player
    render_snapshot(&mut ac, (7, 12, 11, false, false), &refs);
    for x in 0..12 {
        for y in 0..12 {
            let expected = if x < 5 && (6..11).contains(&y) && font[7][(y - 6) * 5 + x] {
                GREEN
            } else if x < 5 && y < 5 && font[0][y * 5 + x] {
                GREEN
            } else if (7..12).contains(&x) && (6..11).contains(&y) && font[2][(y - 6) * 5 + (x - 7)]
            {
                MAGENTA
            } else if (7..12).contains(&x) && y < 5 && font[1][y * 5 + (x - 7)] {
                MAGENTA
            } else {
                BLACK
            };
            assert_eq!(ac.get_pixel((x, y)), Some(expected), "at ({}, {})", x, y);
        }
    }
}

#[test]
fn rendering_marks_a_winner_with_their_color() {
    let font = font_5x5();
    let refs: Vec<&[bool]> = font.iter().map(|g| g.as_slice()).collect();
    let mut ac = ArcadeCoder::new();
    render_snapshot(&mut ac, (11, 9, 11, true, false), &refs);
    for x in 0..12 {
        for y in 0..12 {
            let expected = if x < 5 && (6..11).contains(&y) && font[1][(y - 6) * 5 + x] {
                WHITE  // the winner's own digits turn white on their color
            } else if x < 5 && y < 5 && font[1][y * 5 + x] {
                WHITE
            } else if (7..12).contains(&x) && (6..11).contains(&y) && font[9][(y - 6) * 5 + (x - 7)]
            {
                MAGENTA
            } else if (7..12).contains(&x) && y < 5 && font[0][y * 5 + (x - 7)] {
                MAGENTA
            } else {
                GREEN
            };
            assert_eq!(ac.get_pixel((x, y)), Some(expected), "at ({}, {})", x, y);
        }
    }
}

#[test]
fn rendering_marks_a_twenty_one_point_match() {
    let font = font_5x5();
    let refs: Vec<&[bool]> = font.iter().map(|g| g.as_slice()).collect();
    let mut ac = ArcadeCoder::new();
    render_snapshot(&mut ac, (0, 0, 21, false, false), &refs);
    assert_eq!(ac.get_pixel((5, 11)), Some(RED));
    assert_eq!(ac.get_pixel((6, 11)), Some(RED));
    let mut ac2 = ArcadeCoder::new();
    render_snapshot(&mut ac2, (0, 0, 11, false, false), &refs);
    assert_eq!(ac2.get_pixel((5, 11)), Some(BLACK));
    assert_eq!(ac2.get_pixel((6, 11)), Some(BLACK));
}
