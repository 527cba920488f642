//! The debounce engine: 144 independent per-cell state machines.
//!
//! Each cell keeps the previous raw sample, a saturating counter of
//! consecutive matching samples, and the committed stable value. A cycle
//! that matches the previous sample bumps the counter; a change resets it
//! and records the new sample. Once the counter reaches the configured
//! threshold while the committed value disagrees with the sample, the cell
//! commits the sample and emits one `Pressed` or `Released` event.
//!
//! This consecutive-sample counter is the engine's debounce strategy of
//! record: every cell advances once per scan pass, so simultaneous presses
//! on different cells are each tracked. The coarser wait-and-recheck
//! approach of [`crate::inputs`] trades that fidelity for simplicity.

use vstd::prelude::*;

use crate::{grid_at, ButtonEvent};

verus! {

/// The match counter after one raw sample: bumped (saturating) on a match,
/// reset on a change.
pub open spec fn spec_next_count(prev: bool, count: u8, cur: bool) -> u8 {
    if cur == prev {
        if count == 255 {
            255u8
        } else {
            (count + 1) as u8
        }
    } else {
        0u8
    }
}

/// Whether this cycle commits: the fresh counter has reached the threshold
/// while the committed value still disagrees with the sample.
pub open spec fn spec_emits(prev: bool, count: u8, stable: bool, cur: bool, threshold: u8) -> bool {
    spec_next_count(prev, count, cur) >= threshold && cur != stable
}

/// The committed value after one cycle: flipped to the sample on a commit,
/// otherwise kept.
pub open spec fn spec_next_stable(
    prev: bool,
    count: u8,
    stable: bool,
    cur: bool,
    threshold: u8,
) -> bool {
    if spec_emits(prev, count, stable, cur, threshold) {
        cur
    } else {
        stable
    }
}

/// The event a commit of sample `cur` at cell `(x, y)` emits.
pub open spec fn spec_cell_event(x: int, y: int, cur: bool) -> ButtonEvent {
    if cur {
        ButtonEvent::Pressed(x as u8, y as u8)
    } else {
        ButtonEvent::Released(x as u8, y as u8)
    }
}

/// The events of one debounce pass over the first `n` cells of the grids,
/// walking cells in row-major order (`y` outer, `x` inner).
pub open spec fn spec_events_prefix(
    prev: Seq<Vec<bool>>,
    count: Seq<Vec<u8>>,
    stable: Seq<Vec<bool>>,
    cur: Seq<Vec<bool>>,
    threshold: u8,
    n: int,
) -> Seq<ButtonEvent>
    decreases n,
{
    if n <= 0 {
        Seq::empty()
    } else {
        let i = n - 1;
        let y = i / 12;
        let x = i % 12;
        spec_events_prefix(prev, count, stable, cur, threshold, i) + (if spec_emits(
            grid_at(prev, y, x),
            grid_at(count, y, x),
            grid_at(stable, y, x),
            grid_at(cur, y, x),
            threshold,
        ) {
            seq![spec_cell_event(x, y, grid_at(cur, y, x))]
        } else {
            Seq::empty()
        })
    }
}

/// Whether an event carries the coordinates of cell `(x, y)`.
pub open spec fn spec_event_is_for(e: ButtonEvent, x: int, y: int) -> bool {
    match e {
        ButtonEvent::Pressed(a, b) => a == x && b == y,
        ButtonEvent::Released(a, b) => a == x && b == y,
    }
}

/// How many events of a sequence belong to cell `(x, y)`.
pub open spec fn spec_events_for_cell(events: Seq<ButtonEvent>, x: int, y: int) -> int
    decreases events.len(),
{
    if events.len() == 0 {
        0
    } else {
        spec_events_for_cell(events.drop_last(), x, y) + (if spec_event_is_for(
            events.last(),
            x,
            y,
        ) {
            1int
        } else {
            0int
        })
    }
}

proof fn lemma_prefix_events_for_cell(
    prev: Seq<Vec<bool>>,
    count: Seq<Vec<u8>>,
    stable: Seq<Vec<bool>>,
    cur: Seq<Vec<bool>>,
    threshold: u8,
    x: int,
    y: int,
    n: int,
)
    requires
        0 <= x < 12,
        0 <= y < 12,
        0 <= n <= 144,
    ensures
        spec_events_for_cell(spec_events_prefix(prev, count, stable, cur, threshold, n), x, y) == (
        if y * 12 + x < n && spec_emits(
            grid_at(prev, y, x),
            grid_at(count, y, x),
            grid_at(stable, y, x),
            grid_at(cur, y, x),
            threshold,
        ) {
            1int
        } else {
            0int
        }),
    decreases n,
{
    if n > 0 {
        let i = n - 1;
        let yy = i / 12;
        let xx = i % 12;
        assert(0 <= xx < 12 && 0 <= yy < 12 && yy * 12 + xx == i) by (nonlinear_arith)
            requires
                0 <= i < 144 && yy == i / 12 && xx == i % 12,
        ;
        lemma_prefix_events_for_cell(prev, count, stable, cur, threshold, x, y, n - 1);
        let p = spec_events_prefix(prev, count, stable, cur, threshold, n - 1);
        let full = spec_events_prefix(prev, count, stable, cur, threshold, n);
        if spec_emits(
            grid_at(prev, yy, xx),
            grid_at(count, yy, xx),
            grid_at(stable, yy, xx),
            grid_at(cur, yy, xx),
            threshold,
        ) {
            let e = spec_cell_event(xx, yy, grid_at(cur, yy, xx));
            assert(full =~= p.push(e));
            assert(full.drop_last() =~= p);
            assert(full.last() == e);
            assert(spec_events_for_cell(full, x, y) == spec_events_for_cell(p, x, y) + (if
                spec_event_is_for(e, x, y) {
                1int
            } else {
                0int
            }));
            if x == xx && y == yy {
                assert(spec_event_is_for(e, x, y));
            } else {
                assert(!spec_event_is_for(e, x, y));
                assert(y * 12 + x != i);
            }
        } else {
            assert(full =~= p);
            if x == xx && y == yy {
            } else {
                assert(y * 12 + x != i);
            }
        }
    }
}

/// One debounce pass emits for each cell exactly when that cell's machine
/// commits: the pass's event list carries one event for cell `(x, y)` when
/// `spec_emits` holds of its state and sample there, and none otherwise.
pub proof fn lemma_pass_emits_per_cell(
    prev: Seq<Vec<bool>>,
    count: Seq<Vec<u8>>,
    stable: Seq<Vec<bool>>,
    cur: Seq<Vec<bool>>,
    threshold: u8,
    x: int,
    y: int,
)
    requires
        0 <= x < 12,
        0 <= y < 12,
    ensures
        spec_events_for_cell(spec_events_prefix(prev, count, stable, cur, threshold, 144), x, y)
            == (if spec_emits(
            grid_at(prev, y, x),
            grid_at(count, y, x),
            grid_at(stable, y, x),
            grid_at(cur, y, x),
            threshold,
        ) {
            1int
        } else {
            0int
        }),
{
    lemma_prefix_events_for_cell(prev, count, stable, cur, threshold, x, y, 144);
}

/// How many events one cell emits while fed `inputs`, one sample per cycle,
/// starting from the given cell state.
pub open spec fn spec_cell_emit_count(
    prev: bool,
    count: u8,
    stable: bool,
    threshold: u8,
    inputs: Seq<bool>,
) -> nat
    decreases inputs.len(),
{
    if inputs.len() == 0 {
        0nat
    } else {
        let cur = inputs[0];
        (if spec_emits(prev, count, stable, cur, threshold) {
            1nat
        } else {
            0nat
        }) + spec_cell_emit_count(
            cur,
            spec_next_count(prev, count, cur),
            spec_next_stable(prev, count, stable, cur, threshold),
            threshold,
            inputs.subrange(1, inputs.len() as int),
        )
    }
}

/// The match counter a cell ends at after being fed `inputs`, one sample
/// per cycle. Applied to each prefix of a sample sequence, it gives the
/// counter's whole history.
pub open spec fn spec_cell_count_after(prev: bool, count: u8, inputs: Seq<bool>) -> u8
    decreases inputs.len(),
{
    if inputs.len() == 0 {
        count
    } else {
        spec_cell_count_after(
            inputs[0],
            spec_next_count(prev, count, inputs[0]),
            inputs.subrange(1, inputs.len() as int),
        )
    }
}

/// Once every sample disagrees with the cell's previous one, the counter is
/// reset on every cycle and nothing is ever emitted.
proof fn lemma_alternating_tail(
    prev: bool,
    count: u8,
    stable: bool,
    threshold: u8,
    inputs: Seq<bool>,
)
    requires
        threshold >= 1,
        inputs.len() > 0 ==> inputs[0] != prev,
        forall|i: int| 0 <= i < inputs.len() - 1 ==> inputs[i + 1] != #[trigger] inputs[i],
    ensures
        spec_cell_emit_count(prev, count, stable, threshold, inputs) == 0,
        spec_cell_count_after(prev, count, inputs) == (if inputs.len() == 0 {
            count
        } else {
            0u8
        }),
    decreases inputs.len(),
{
    if inputs.len() > 0 {
        let cur = inputs[0];
        let tail = inputs.subrange(1, inputs.len() as int);
        assert(spec_next_count(prev, count, cur) == 0);
        assert(!spec_emits(prev, count, stable, cur, threshold));
        assert forall|i: int| 0 <= i < tail.len() - 1 implies tail[i + 1] != #[trigger] tail[i] by {
            assert(tail[i + 1] == inputs[i + 2]);
            assert(tail[i] == inputs[i + 1]);
        }
        if tail.len() > 0 {
            assert(tail[0] == inputs[1]);
        }
        lemma_alternating_tail(cur, 0u8, stable, threshold, tail);
    }
}

/// A cell whose raw sample alternates every cycle never commits and never
/// emits: starting from a reset counter, the counter never passes one —
/// apply the count clause to each prefix for its whole history — so a
/// threshold of at least two is never reached.
pub proof fn lemma_alternating_never_emits(
    prev: bool,
    stable: bool,
    threshold: u8,
    inputs: Seq<bool>,
)
    requires
        threshold >= 2,
        forall|i: int| 0 <= i < inputs.len() - 1 ==> inputs[i + 1] != #[trigger] inputs[i],
    ensures
        spec_cell_emit_count(prev, 0u8, stable, threshold, inputs) == 0,
        spec_cell_count_after(prev, 0u8, inputs) <= 1,
{
    if inputs.len() > 0 {
        let cur = inputs[0];
        let tail = inputs.subrange(1, inputs.len() as int);
        assert(spec_next_count(prev, 0u8, cur) <= 1);
        assert(!spec_emits(prev, 0u8, stable, cur, threshold));
        assert forall|i: int| 0 <= i < tail.len() - 1 implies tail[i + 1] != #[trigger] tail[i] by {
            assert(tail[i + 1] == inputs[i + 2]);
            assert(tail[i] == inputs[i + 1]);
        }
        if tail.len() > 0 {
            assert(tail[0] == inputs[1]);
        }
        lemma_alternating_tail(cur, spec_next_count(prev, 0u8, cur), stable, threshold, tail);
    }
}

/// A cell whose committed value already matches every incoming sample emits
/// nothing.
proof fn lemma_steady_after_commit(
    prev: bool,
    count: u8,
    stable: bool,
    threshold: u8,
    inputs: Seq<bool>,
)
    requires
        forall|i: int| 0 <= i < inputs.len() ==> inputs[i] == stable,
    ensures
        spec_cell_emit_count(prev, count, stable, threshold, inputs) == 0,
    decreases inputs.len(),
{
    if inputs.len() > 0 {
        let cur = inputs[0];
        let tail = inputs.subrange(1, inputs.len() as int);
        assert(!spec_emits(prev, count, stable, cur, threshold));
        assert forall|i: int| 0 <= i < tail.len() implies tail[i] == stable by {
            assert(tail[i] == inputs[i + 1]);
        }
        lemma_steady_after_commit(
            cur,
            spec_next_count(prev, count, cur),
            stable,
            threshold,
            tail,
        );
    }
}

/// A cell already matching its sample counts up cycle by cycle; with enough
/// matching cycles left to reach the threshold it commits exactly once, and
/// after the commit stays silent.
proof fn lemma_counting_emits_once(count: u8, stable: bool, threshold: u8, v: bool, inputs: Seq<bool>)
    requires
        threshold >= 1,
        stable != v,
        inputs.len() + count >= threshold,
        inputs.len() >= 1,
        forall|i: int| 0 <= i < inputs.len() ==> inputs[i] == v,
    ensures
        spec_cell_emit_count(v, count, stable, threshold, inputs) == 1,
    decreases inputs.len(),
{
    let cur = inputs[0];
    let tail = inputs.subrange(1, inputs.len() as int);
    let c2 = spec_next_count(v, count, cur);
    assert forall|i: int| 0 <= i < tail.len() implies tail[i] == v by {
        assert(tail[i] == inputs[i + 1]);
    }
    if c2 >= threshold {
        assert(spec_emits(v, count, stable, cur, threshold));
        assert(spec_next_stable(v, count, stable, cur, threshold) == v);
        lemma_steady_after_commit(cur, c2, v, threshold, tail);
    } else {
        assert(!spec_emits(v, count, stable, cur, threshold));
        assert(c2 == count + 1);
        lemma_counting_emits_once(c2, stable, threshold, v, tail);
    }
}

/// A cell holding a raw value that disagrees with its committed state for at
/// least `threshold + 1` consecutive cycles emits exactly one event for it —
/// one cycle may be spent recording the change, `threshold` more reaching the
/// counter's target — and none afterwards, whatever state the cell started
/// in.
pub proof fn lemma_held_value_emits_once(
    prev: bool,
    count: u8,
    stable: bool,
    threshold: u8,
    v: bool,
    inputs: Seq<bool>,
)
    requires
        threshold >= 1,
        stable != v,
        inputs.len() >= threshold + 1,
        forall|i: int| 0 <= i < inputs.len() ==> inputs[i] == v,
    ensures
        spec_cell_emit_count(prev, count, stable, threshold, inputs) == 1,
{
    let cur = inputs[0];
    let tail = inputs.subrange(1, inputs.len() as int);
    assert forall|i: int| 0 <= i < tail.len() implies tail[i] == v by {
        assert(tail[i] == inputs[i + 1]);
    }
    if prev == v {
        lemma_counting_emits_once(count, stable, threshold, v, inputs);
    } else {
        assert(spec_next_count(prev, count, cur) == 0);
        assert(!spec_emits(prev, count, stable, cur, threshold));
        lemma_counting_emits_once(0u8, stable, threshold, v, tail);
    }
}

} // verus!
