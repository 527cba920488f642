//! The scoreboard: two players' scores driven by button presses.
//!
//! The matrix is split into quadrants: a press in the top half increments
//! the adjacent player's score, one in the bottom half decrements it, the
//! bottom row resets the match, and the two middle cells of the bottom row
//! toggle the winning threshold between 11 and 21. A player wins on
//! reaching the threshold while leading by at least the configured margin.

use vstd::prelude::*;

use crate::coder::ArcadeCoder;
use crate::{ButtonEvent, Color};

verus! {

/// A rendering snapshot of the scoreboard:
/// `(score_a, score_b, win_threshold, a_winner, b_winner)`.
pub type Snapshot = (u8, u8, u8, bool, bool);

/// A score bumped by one, held at the top of its range.
pub open spec fn spec_inc(v: u8) -> u8 {
    if v < 255 {
        (v + 1) as u8
    } else {
        v
    }
}

/// A score dropped by one, held at zero.
pub open spec fn spec_dec(v: u8) -> u8 {
    if v > 0 {
        (v - 1) as u8
    } else {
        v
    }
}

/// The absolute difference of the two scores.
pub open spec fn spec_score_diff(a: u8, b: u8) -> int {
    if a >= b {
        a - b
    } else {
        b - a
    }
}

/// The scoreboard state.
pub struct State {
    pub score_a: u8,
    pub score_b: u8,
    pub win_threshold: u8,
    pub win_diff: u8,
    /// Whether player A has won, as of the last win check.
    pub a_winner: bool,
    /// Whether player B has won, as of the last win check.
    pub b_winner: bool,
}

/// Player A is winning: strictly ahead, at or past the threshold, and by at
/// least the required margin.
pub open spec fn spec_a_wins(s: State) -> bool {
    s.score_a > s.score_b && s.score_a >= s.win_threshold && spec_score_diff(
        s.score_a,
        s.score_b,
    ) >= s.win_diff
}

/// Player B is winning, symmetrically.
pub open spec fn spec_b_wins(s: State) -> bool {
    s.score_b > s.score_a && s.score_b >= s.win_threshold && spec_score_diff(
        s.score_a,
        s.score_b,
    ) >= s.win_diff
}

/// The winner flags agree with the scores.
pub open spec fn spec_winners_consistent(s: State) -> bool {
    s.a_winner == spec_a_wins(s) && s.b_winner == spec_b_wins(s)
}

impl State {
    /// A fresh match: no points, play to 11, win by 2.
    pub fn new() -> (s: State)
        ensures
            s.score_a == 0,
            s.score_b == 0,
            s.win_threshold == 11,
            s.win_diff == 2,
            !s.a_winner,
            !s.b_winner,
            spec_winners_consistent(s),
    {
        State {
            score_a: 0,
            score_b: 0,
            win_threshold: 11,
            win_diff: 2,
            a_winner: false,
            b_winner: false,
        }
    }

    /// Recompute the winner flags from the scores.
    pub fn check_win(&mut self)
        ensures
            final(self).score_a == old(self).score_a,
            final(self).score_b == old(self).score_b,
            final(self).win_threshold == old(self).win_threshold,
            final(self).win_diff == old(self).win_diff,
            spec_winners_consistent(*final(self)),
    {
        let diff = if self.score_a >= self.score_b {
            self.score_a - self.score_b
        } else {
            self.score_b - self.score_a
        };
        self.a_winner = self.score_a > self.score_b && self.score_a >= self.win_threshold && diff
            >= self.win_diff;
        self.b_winner = self.score_b > self.score_a && self.score_b >= self.win_threshold && diff
            >= self.win_diff;
    }

    /// Set both scores back to zero.
    pub fn reset(&mut self)
        ensures
            final(self).score_a == 0,
            final(self).score_b == 0,
            final(self).win_threshold == old(self).win_threshold,
            final(self).win_diff == old(self).win_diff,
            spec_winners_consistent(*final(self)),
    {
        self.score_a = 0;
        self.score_b = 0;
        self.check_win();
    }

    /// Give player A a point, holding at the top of the score range.
    pub fn inc_score_a(&mut self)
        ensures
            final(self).score_a == spec_inc(old(self).score_a),
            final(self).score_b == old(self).score_b,
            final(self).win_threshold == old(self).win_threshold,
            final(self).win_diff == old(self).win_diff,
            spec_winners_consistent(*final(self)),
    {
        self.score_a = match self.score_a.checked_add(1) {
            Some(v) => v,
            None => self.score_a,
        };
        self.check_win();
    }

    /// Give player B a point, holding at the top of the score range.
    pub fn inc_score_b(&mut self)
        ensures
            final(self).score_b == spec_inc(old(self).score_b),
            final(self).score_a == old(self).score_a,
            final(self).win_threshold == old(self).win_threshold,
            final(self).win_diff == old(self).win_diff,
            spec_winners_consistent(*final(self)),
    {
        self.score_b = match self.score_b.checked_add(1) {
            Some(v) => v,
            None => self.score_b,
        };
        self.check_win();
    }

    /// Take a point from player A, holding at zero.
    pub fn dec_score_a(&mut self)
        ensures
            final(self).score_a == spec_dec(old(self).score_a),
            final(self).score_b == old(self).score_b,
            final(self).win_threshold == old(self).win_threshold,
            final(self).win_diff == old(self).win_diff,
            spec_winners_consistent(*final(self)),
    {
        self.score_a = match self.score_a.checked_sub(1) {
            Some(v) => v,
            None => self.score_a,
        };
        self.check_win();
    }

    /// Take a point from player B, holding at zero.
    pub fn dec_score_b(&mut self)
        ensures
            final(self).score_b == spec_dec(old(self).score_b),
            final(self).score_a == old(self).score_a,
            final(self).win_threshold == old(self).win_threshold,
            final(self).win_diff == old(self).win_diff,
            spec_winners_consistent(*final(self)),
    {
        self.score_b = match self.score_b.checked_sub(1) {
            Some(v) => v,
            None => self.score_b,
        };
        self.check_win();
    }

    /// Apply one button event: the bottom row's middle cells toggle the
    /// threshold, the rest of the bottom row resets, and the four quadrants
    /// adjust the two scores. Releases change nothing. Returns whether the
    /// state changed and a redraw is due.
    pub fn apply_event(&mut self, event: ButtonEvent) -> (mutated: bool)
        ensures
            match event {
                ButtonEvent::Pressed(x, y) => mutated && spec_winners_consistent(*final(self))
                    && final(self).win_diff == old(self).win_diff && (if y == 11 && (x == 5 || x
                    == 6) {
                    final(self).score_a == old(self).score_a && final(self).score_b == old(self).score_b && final(self).win_threshold == (if old(self).win_threshold == 11 {
                        21u8
                    } else {
                        11u8
                    })
                } else if y == 11 {
                    final(self).score_a == 0 && final(self).score_b == 0 && final(self).win_threshold == old(self).win_threshold
                } else if x < 6 && y < 6 {
                    final(self).score_a == spec_inc(old(self).score_a) && final(self).score_b
                        == old(self).score_b && final(self).win_threshold == old(self).win_threshold
                } else if x < 6 {
                    final(self).score_a == spec_dec(old(self).score_a) && final(self).score_b
                        == old(self).score_b && final(self).win_threshold == old(self).win_threshold
                } else if y < 6 {
                    final(self).score_b == spec_inc(old(self).score_b) && final(self).score_a
                        == old(self).score_a && final(self).win_threshold == old(self).win_threshold
                } else {
                    final(self).score_b == spec_dec(old(self).score_b) && final(self).score_a
                        == old(self).score_a && final(self).win_threshold == old(self).win_threshold
                }),
                ButtonEvent::Released(_, _) => !mutated && *final(self) == *old(self),
            },
    {
        match event {
            ButtonEvent::Pressed(x, y) => {
                if y == 11 && (x == 5 || x == 6) {
                    if self.win_threshold == 11 {
                        self.win_threshold = 21;
                    } else {
                        self.win_threshold = 11;
                    }
                    self.check_win();
                } else if y == 11 {
                    self.reset();
                } else if x < 6 && y < 6 {
                    self.inc_score_a();
                } else if x < 6 {
                    self.dec_score_a();
                } else if y < 6 {
                    self.inc_score_b();
                } else {
                    self.dec_score_b();
                }
                true
            },
            ButtonEvent::Released(_, _) => false,
        }
    }
}

/// The five values a redraw needs, taken while holding the state so the
/// rendering itself can run without it.
pub fn snapshot_from_state(s: &State) -> (snap: Snapshot)
    ensures
        snap == (s.score_a, s.score_b, s.win_threshold, s.a_winner, s.b_winner),
{
    (s.score_a, s.score_b, s.win_threshold, s.a_winner, s.b_winner)
}

/// The color the rendered scoreboard shows at `(x, y)`: the threshold dots
/// on top, then the four score digits — tens above ones, player A left of
/// player B — over a full-screen winner background, or over black when the
/// match is still open. A winner's own digits turn white on their color.
pub open spec fn spec_snapshot_pixel(snap: Snapshot, font: Seq<&[bool]>, x: int, y: int) -> Color {
    let a_text: Color = if snap.3 {
        (true, true, true)
    } else {
        (false, true, false)
    };
    let b_text: Color = if !snap.3 && snap.4 {
        (true, true, true)
    } else {
        (true, false, true)
    };
    let bg: Color = if snap.3 {
        (false, true, false)
    } else if snap.4 {
        (true, false, true)
    } else {
        (false, false, false)
    };
    if snap.2 == 21 && y == 11 && (x == 5 || x == 6) {
        (true, false, false)
    } else if 0 <= x < 5 && 6 <= y < 11 && font[(snap.0 % 10) as int]@[(y - 6) * 5 + x] {
        a_text
    } else if 0 <= x < 5 && 0 <= y < 5 && font[((snap.0 / 10) % 10) as int]@[y * 5 + x] {
        a_text
    } else if 7 <= x < 12 && 6 <= y < 11 && font[(snap.1 % 10) as int]@[(y - 6) * 5 + (x - 7)] {
        b_text
    } else if 7 <= x < 12 && 0 <= y < 5 && font[((snap.1 / 10) % 10) as int]@[y * 5 + (x - 7)] {
        b_text
    } else {
        bg
    }
}

/// Redraw the whole screen from a snapshot, with a ten-glyph 5 by 5 font:
/// clear, paint the winner background if any, draw both players' two score
/// digits, and mark the bottom middle cells red when playing to 21.
pub fn render_snapshot(ac: &mut ArcadeCoder, snap: Snapshot, font: &[&[bool]])
    requires
        old(ac).wf(),
        font@.len() == 10,
        forall|i: int| 0 <= i < 10 ==> (#[trigger] font@[i])@.len() >= 25,
    ensures
        final(ac).wf(),
        final(ac).button_presses == old(ac).button_presses,
        final(ac).same_debounce(*old(ac)),
        forall|x: int, y: int|
            0 <= x < 12 && 0 <= y < 12 ==> #[trigger] final(ac).color_at(x, y)
                == spec_snapshot_pixel(snap, font@, x, y),
{
    let (score_a, score_b, win_threshold, a_winner, b_winner) = snap;
    ac.clear();
    let mut a_text_color: Color = (false, true, false);
    let mut b_text_color: Color = (true, false, true);
    if a_winner {
        ac.draw_rect((0, 0), (11, 11), (false, true, false));
        a_text_color = (true, true, true);
    } else if b_winner {
        ac.draw_rect((0, 0), (11, 11), (true, false, true));
        b_text_color = (true, true, true);
    }
    ac.draw_digit((score_a % 10) as u32, font, (5, 5), (0, 6), a_text_color);
    ac.draw_digit(((score_a / 10) % 10) as u32, font, (5, 5), (0, 0), a_text_color);
    ac.draw_digit((score_b % 10) as u32, font, (5, 5), (7, 6), b_text_color);
    ac.draw_digit(((score_b / 10) % 10) as u32, font, (5, 5), (7, 0), b_text_color);
    if win_threshold == 21 {
        ac.set_pixel((5, 11), (true, false, false));
        ac.set_pixel((6, 11), (true, false, false));
    }
    proof {
        assert(((score_a % 10) as u32 % 10) as int == (snap.0 % 10) as int);
        assert((((score_a / 10) % 10) as u32 % 10) as int == ((snap.0 / 10) % 10) as int);
        assert(((score_b % 10) as u32 % 10) as int == (snap.1 % 10) as int);
        assert((((score_b / 10) % 10) as u32 % 10) as int == ((snap.1 / 10) % 10) as int);
        assert forall|x: int, y: int| 0 <= x < 12 && 0 <= y < 12 implies #[trigger] ac.color_at(
            x,
            y,
        ) == spec_snapshot_pixel(snap, font@, x, y) by {}
    }
}

} // verus!
