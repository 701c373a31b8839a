//! Analysis of simulations: periodicity, still lifes and population ranges.
use vstd::prelude::*;

use crate::cell::TritCell;
use crate::grid::LifeGrid;
use crate::rules::{successor_cells, Family};

verus! {

/// The last `2 * p` values of `history` consist of the same `p` values twice.
pub open spec fn repeats_with_period(history: Seq<usize>, p: int) -> bool {
    &&& 2 * p <= history.len()
    &&& forall|i: int|
        0 <= i < p ==> #[trigger] history[history.len() - 2 * p + i] == history[history.len() - p
            + i]
}

/// Whether the last `2 * period` values of `history` are the same `period`
/// values twice.
fn tail_repeats(history: &[usize], period: usize) -> (r: bool)
    requires
        2 * period <= history@.len(),
    ensures
        r == repeats_with_period(history@, period as int),
{
    let n = history.len();
    let start = n - 2 * period;
    let mut i: usize = 0;
    while i < period
        invariant
            n == history@.len(),
            2 * period <= n,
            start == n - 2 * period,
            i <= period,
            forall|j: int|
                0 <= j < i ==> #[trigger] history@[n - 2 * period + j] == history@[n - period + j],
        decreases period - i,
    {
        if history[start + i] != history[start + period + i] {
            assert(history@[n - 2 * period + i] != history@[n - period + i]);
            return false;
        }
        i = i + 1;
    }
    true
}

/// Given a population history, detect a repeating period from 2 to 10.
/// Returns Some(period) for the smallest period whose last 2*period values
/// show periodic behavior, and None when no period from 2 to 10 does.
pub fn detect_oscillation(history: &[usize]) -> (r: Option<usize>)
    ensures
        match r {
            Some(p) => {
                &&& 2 <= p <= 10
                &&& repeats_with_period(history@, p as int)
                &&& forall|q: int| 2 <= q < p ==> !repeats_with_period(history@, q)
            },
            None => forall|q: int| 2 <= q <= 10 ==> !repeats_with_period(history@, q),
        },
{
    let n = history.len();
    let mut period: usize = 2;
    while period <= 10
        invariant
            n == history@.len(),
            2 <= period <= 11,
            forall|q: int| 2 <= q < period ==> !repeats_with_period(history@, q),
        decreases 11 - period,
    {
        let needed = period * 2;
        if n >= needed && tail_repeats(history, period) {
            return Some(period);
        }
        period = period + 1;
    }
    None
}

/// Returns true if the grid is a still life under ThreeStateLife rules
/// (i.e. applying one step yields the same configuration).
pub fn find_still_life(grid: &LifeGrid) -> (r: bool)
    requires
        grid.wf(),
    ensures
        r == (grid.three_state_successor() == grid.cells_view()),
{
    let next = successor_cells(grid, Family::ThreeState);
    let ghost succ = grid.three_state_successor();
    let mut y: usize = 0;
    while y < grid.height
        invariant
            grid.wf(),
            succ == grid.three_state_successor(),
            next@.len() == grid.height,
            forall|j: int| 0 <= j < grid.height ==> #[trigger] next@[j]@.len() == grid.width,
            forall|i: int, j: int|
                0 <= i < grid.width && 0 <= j < grid.height ==> #[trigger] next@[j]@[i] == succ[j][i],
            y <= grid.height,
            forall|i: int, j: int|
                0 <= i < grid.width && 0 <= j < y ==> #[trigger] succ[j][i] == grid.cell(i, j),
        decreases grid.height - y,
    {
        let mut x: usize = 0;
        while x < grid.width
            invariant
                grid.wf(),
                succ == grid.three_state_successor(),
                next@.len() == grid.height,
                forall|j: int| 0 <= j < grid.height ==> #[trigger] next@[j]@.len() == grid.width,
                forall|i: int, j: int|
                    0 <= i < grid.width && 0 <= j < grid.height ==> #[trigger] next@[j]@[i]
                        == succ[j][i],
                y < grid.height,
                x <= grid.width,
                forall|i: int, j: int|
                    0 <= i < grid.width && 0 <= j < y ==> #[trigger] succ[j][i] == grid.cell(i, j),
                forall|i: int| 0 <= i < x ==> #[trigger] succ[y as int][i] == grid.cell(i, y as int),
            decreases grid.width - x,
        {
            if next[y][x] != grid.cells[y][x] {
                assert(succ[y as int][x as int] != grid.cells_view()[y as int][x as int]);
                return false;
            }
            x = x + 1;
        }
        y = y + 1;
    }
    assert(succ =~~= grid.cells_view());
    true
}

/// The smallest and largest value of a population history, or `(0, 0)` when
/// the history is empty.
pub fn history_min_max(history: &[usize]) -> (r: (usize, usize))
    ensures
        history@.len() == 0 ==> r == (0usize, 0usize),
        history@.len() > 0 ==> {
            &&& history@.contains(r.0)
            &&& history@.contains(r.1)
            &&& forall|i: int| 0 <= i < history@.len() ==> r.0 <= #[trigger] history@[i] <= r.1
        },
{
    if history.len() == 0 {
        return (0, 0);
    }
    let mut lo = history[0];
    let mut hi = history[0];
    let ghost mut lo_at: int = 0;
    let ghost mut hi_at: int = 0;
    let mut k: usize = 1;
    while k < history.len()
        invariant
            1 <= k <= history@.len(),
            0 <= lo_at < history@.len(),
            0 <= hi_at < history@.len(),
            history@[lo_at] == lo,
            history@[hi_at] == hi,
            forall|i: int| 0 <= i < k ==> lo <= #[trigger] history@[i] <= hi,
        decreases history.len() - k,
    {
        let v = history[k];
        if v < lo {
            lo = v;
            proof {
                lo_at = k as int;
            }
        }
        if v > hi {
            hi = v;
            proof {
                hi_at = k as int;
            }
        }
        k = k + 1;
    }
    (lo, hi)
}


/// Putting older values before a history changes no period that the history
/// is long enough to show, so a period found on the history is found again,
/// as the smallest one, on the longer history.
pub proof fn lemma_older_history_keeps_period(older: Seq<usize>, history: Seq<usize>, p: int)
    requires
        2 <= p <= 10,
        repeats_with_period(history, p),
        forall|q: int| 2 <= q < p ==> !repeats_with_period(history, q),
    ensures
        repeats_with_period(older + history, p),
        forall|q: int| 2 <= q < p ==> !repeats_with_period(older + history, q),
{
    assert forall|q: int| 0 <= q && 2 * q <= history.len() implies #[trigger] repeats_with_period(older + history, q)
        == repeats_with_period(history, q) by {
        let full = older + history;
        assert forall|i: int| 0 <= i < q implies #[trigger] full[full.len() - 2 * q + i] == history[history.len() - 2 * q + i]
            && full[full.len() - q + i] == history[history.len() - q + i] by {}
        if repeats_with_period(history, q) {
            assert forall|i: int| 0 <= i < q implies #[trigger] full[full.len() - 2 * q + i] == full[full.len() - q + i] by {
                assert(history[history.len() - 2 * q + i] == history[history.len() - q + i]);
            }
        }
        if repeats_with_period(full, q) {
            assert forall|i: int| 0 <= i < q implies #[trigger] history[history.len() - 2 * q + i] == history[history.len() - q + i] by {
                assert(full[full.len() - 2 * q + i] == full[full.len() - q + i]);
            }
        }
    }
}

} // verus!
