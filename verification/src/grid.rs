//! A rectangular grid of trits with toroidal (wrapping) topology.
use vstd::prelude::*;

use crate::cell::{active, TritCell};

verus! {

/// Whether a cell is counted: Alive cells always, Idle cells only when
/// `include_idle` holds.
pub open spec fn counted(c: TritCell, include_idle: bool) -> bool {
    if include_idle {
        active(c)
    } else {
        c == TritCell::Alive
    }
}

/// `1` when the cell is counted, else `0`.
pub open spec fn tally(c: TritCell, include_idle: bool) -> nat {
    if counted(c, include_idle) {
        1
    } else {
        0
    }
}

/// Number of counted cells in a row.
pub open spec fn count_in_row(row: Seq<TritCell>, include_idle: bool) -> nat
    decreases row.len(),
{
    if row.len() == 0 {
        0
    } else {
        count_in_row(row.drop_last(), include_idle) + tally(row.last(), include_idle)
    }
}

/// Number of counted cells in a sequence of rows.
pub open spec fn count_in_rows(rows: Seq<Seq<TritCell>>, include_idle: bool) -> nat
    decreases rows.len(),
{
    if rows.len() == 0 {
        0
    } else {
        count_in_rows(rows.drop_last(), include_idle) + count_in_row(rows.last(), include_idle)
    }
}

/// Number of cells in a sequence of rows, whatever their lengths.
pub open spec fn cell_total(rows: Seq<Seq<TritCell>>) -> nat
    decreases rows.len(),
{
    if rows.len() == 0 {
        0
    } else {
        cell_total(rows.drop_last()) + rows.last().len()
    }
}

/// Stepping one place left or right of an index in `0..n` wraps around the ends.
pub proof fn lemma_wrap_step(i: int, n: int)
    requires
        0 <= i < n,
    ensures
        (i - 1) % n == if i == 0 { n - 1 } else { i - 1 },
        i % n == i,
        (i + 1) % n == if i + 1 == n { 0 } else { i + 1 },
{
    if i == 0 {
        vstd::arithmetic::div_mod::lemma_fundamental_div_mod_converse(i - 1, n, -1, n - 1);
    } else {
        vstd::arithmetic::div_mod::lemma_fundamental_div_mod_converse(i - 1, n, 0, i - 1);
    }
    vstd::arithmetic::div_mod::lemma_fundamental_div_mod_converse(i, n, 0, i);
    if i + 1 == n {
        vstd::arithmetic::div_mod::lemma_fundamental_div_mod_converse(i + 1, n, 1, 0);
    } else {
        vstd::arithmetic::div_mod::lemma_fundamental_div_mod_converse(i + 1, n, 0, i + 1);
    }
}

/// The index one place before `i` on a ring of `n` places.
fn ring_prev(i: usize, n: usize) -> (r: usize)
    requires
        i < n,
    ensures
        r == (i - 1) % (n as int),
        r < n,
{
    proof {
        lemma_wrap_step(i as int, n as int);
    }
    if i == 0 {
        n - 1
    } else {
        i - 1
    }
}

/// The index one place after `i` on a ring of `n` places.
fn ring_next(i: usize, n: usize) -> (r: usize)
    requires
        i < n,
    ensures
        r == (i + 1) % (n as int),
        r < n,
{
    proof {
        lemma_wrap_step(i as int, n as int);
    }
    if i + 1 == n {
        0
    } else {
        i + 1
    }
}

/// A prefix of a sequence of rows holds no more cells than the whole.
pub proof fn lemma_cell_total_prefix(rows: Seq<Seq<TritCell>>, k: int)
    requires
        0 <= k <= rows.len(),
    ensures
        cell_total(rows.take(k)) <= cell_total(rows),
    decreases rows.len(),
{
    if k < rows.len() {
        lemma_cell_total_prefix(rows.drop_last(), k);
        assert(rows.drop_last().take(k) =~= rows.take(k));
    } else {
        assert(rows.take(k) =~= rows);
    }
}

/// Rows of `w` cells each hold `rows.len() * w` cells.
pub proof fn lemma_cell_total_uniform(rows: Seq<Seq<TritCell>>, w: nat)
    requires
        forall|j: int| 0 <= j < rows.len() ==> #[trigger] rows[j].len() == w,
    ensures
        cell_total(rows) == rows.len() * w,
    decreases rows.len(),
{
    if rows.len() > 0 {
        lemma_cell_total_uniform(rows.drop_last(), w);
        assert(rows.len() * w == (rows.len() - 1) * w + w) by (nonlinear_arith);
    }
}

/// A row holds no more counted cells than it has cells.
pub proof fn lemma_count_in_row_bounded(row: Seq<TritCell>, include_idle: bool)
    ensures
        count_in_row(row, include_idle) <= row.len(),
        count_in_row(row, false) <= count_in_row(row, true),
    decreases row.len(),
{
    if row.len() > 0 {
        lemma_count_in_row_bounded(row.drop_last(), include_idle);
    }
}

/// Rows hold no more counted cells than cells, and no more Alive cells than
/// active ones.
pub proof fn lemma_count_in_rows_bounded(rows: Seq<Seq<TritCell>>, include_idle: bool)
    ensures
        count_in_rows(rows, include_idle) <= cell_total(rows),
        count_in_rows(rows, false) <= count_in_rows(rows, true),
    decreases rows.len(),
{
    if rows.len() > 0 {
        lemma_count_in_rows_bounded(rows.drop_last(), include_idle);
        lemma_count_in_row_bounded(rows.last(), include_idle);
    }
}

/// A 2D grid of ternary cells with toroidal (wrapping) topology.
/// `cells[y][x]` is the cell in column `x` of row `y`.
pub struct LifeGrid {
    pub width: usize,
    pub height: usize,
    pub cells: Vec<Vec<TritCell>>,
    pub generation: u64,
}

impl LifeGrid {
    /// The grid has `height` rows of `width` cells each.
    pub open spec fn wf(&self) -> bool {
        &&& self.cells_view().len() == self.height
        &&& forall|y: int| 0 <= y < self.height ==> #[trigger] self.cells_view()[y].len() == self.width
    }

    /// The cells as a sequence of rows.
    pub open spec fn cells_view(&self) -> Seq<Seq<TritCell>> {
        self.cells@.map_values(|row: Vec<TritCell>| row@)
    }

    /// The position `(x, y)` is a cell of the grid: row `y` exists and has a
    /// column `x`.
    pub open spec fn holds(&self, pos: (usize, usize)) -> bool {
        &&& pos.1 < self.cells_view().len()
        &&& pos.0 < self.cells_view()[pos.1 as int].len()
    }

    /// The cell in column `x` of row `y`.
    pub open spec fn cell(&self, x: int, y: int) -> TritCell {
        self.cells_view()[y][x]
    }

    /// The cell at offset `(dx, dy)` from `(x, y)`, wrapping around the edges.
    pub open spec fn neighbour(&self, x: int, y: int, dx: int, dy: int) -> TritCell {
        self.cell((x + dx) % (self.width as int), (y + dy) % (self.height as int))
    }

    /// Counted cells among the eight Moore neighbours of `(x, y)`, the offsets
    /// `(dx, dy)` with `dx, dy` in `{-1, 0, 1}` other than `(0, 0)`, with wrapping.
    #[verifier::opaque]
    pub open spec fn neighbours_counted(&self, x: int, y: int, include_idle: bool) -> nat {
        tally(self.neighbour(x, y, -1, -1), include_idle)
            + tally(self.neighbour(x, y, 0, -1), include_idle)
            + tally(self.neighbour(x, y, 1, -1), include_idle)
            + tally(self.neighbour(x, y, -1, 0), include_idle)
            + tally(self.neighbour(x, y, 1, 0), include_idle)
            + tally(self.neighbour(x, y, -1, 1), include_idle)
            + tally(self.neighbour(x, y, 0, 1), include_idle)
            + tally(self.neighbour(x, y, 1, 1), include_idle)
    }

    /// Alive cells among the eight Moore neighbours of `(x, y)`, with wrapping.
    pub open spec fn alive_around(&self, x: int, y: int) -> nat {
        self.neighbours_counted(x, y, false)
    }

    /// Idle or Alive cells among the eight Moore neighbours of `(x, y)`, with wrapping.
    pub open spec fn active_around(&self, x: int, y: int) -> nat {
        self.neighbours_counted(x, y, true)
    }

    /// Counted cells among the first `k` positions of the 3x3 window centred on
    /// `(x, y)`, taken row by row; position 4, the centre, is skipped.
    spec fn window_count(&self, x: int, y: int, include_idle: bool, k: nat) -> nat
        decreases k,
    {
        if k == 0 {
            0
        } else {
            let i = (k - 1) as int;
            self.window_count(x, y, include_idle, (k - 1) as nat) + if i == 4 {
                0
            } else {
                tally(self.neighbour(x, y, i % 3 - 1, i / 3 - 1), include_idle)
            }
        }
    }

    /// The whole window, centre skipped, is the eight-neighbour count.
    proof fn lemma_window_is_neighbourhood(&self, x: int, y: int, include_idle: bool)
        ensures
            self.window_count(x, y, include_idle, 9) == self.neighbours_counted(x, y, include_idle),
    {
        reveal_with_fuel(LifeGrid::window_count, 10);
        reveal(LifeGrid::neighbours_counted);
    }

    /// Create a new grid, all cells Dead.
    pub fn new(width: usize, height: usize) -> (g: Self)
        ensures
            g.wf(),
            g.width == width,
            g.height == height,
            g.generation == 0,
            forall|x: int, y: int|
                0 <= x < width && 0 <= y < height ==> #[trigger] g.cell(x, y) == TritCell::Dead,
    {
        let mut cells: Vec<Vec<TritCell>> = Vec::new();
        let mut y: usize = 0;
        while y < height
            invariant
                y <= height,
                cells@.len() == y,
                forall|j: int| 0 <= j < y ==> #[trigger] cells@[j]@.len() == width,
                forall|j: int, i: int|
                    0 <= j < y && 0 <= i < width ==> #[trigger] cells@[j]@[i] == TritCell::Dead,
            decreases height - y,
        {
            let mut row: Vec<TritCell> = Vec::new();
            let mut x: usize = 0;
            while x < width
                invariant
                    x <= width,
                    row@.len() == x,
                    forall|i: int| 0 <= i < x ==> #[trigger] row@[i] == TritCell::Dead,
                decreases width - x,
            {
                row.push(TritCell::Dead);
                x = x + 1;
            }
            cells.push(row);
            y = y + 1;
        }
        LifeGrid { width, height, cells, generation: 0 }
    }

    /// Set cell at (x, y) to the given state.
    pub fn set(&mut self, x: usize, y: usize, cell: TritCell)
        requires
            y < old(self).cells_view().len(),
            x < old(self).cells_view()[y as int].len(),
        ensures
            old(self).wf() ==> final(self).wf(),
            final(self).width == old(self).width,
            final(self).height == old(self).height,
            final(self).generation == old(self).generation,
            final(self).cells_view() == old(self).cells_view().update(
                y as int,
                old(self).cells_view()[y as int].update(x as int, cell),
            ),
    {
        self.cells[y][x] = cell;
        assert(self.cells_view() =~~= old(self).cells_view().update(
            y as int,
            old(self).cells_view()[y as int].update(x as int, cell),
        ));
    }

    /// Get cell at (x, y).
    pub fn get(&self, x: usize, y: usize) -> (c: TritCell)
        requires
            y < self.cells_view().len(),
            x < self.cells_view()[y as int].len(),
        ensures
            c == self.cell(x as int, y as int),
    {
        self.cells[y][x]
    }

    /// Counts the counted cells among the eight Moore neighbours of `(x, y)`.
    fn count_neighbours(&self, x: usize, y: usize, include_idle: bool) -> (n: usize)
        requires
            self.wf(),
            x < self.width,
            y < self.height,
        ensures
            n == self.window_count(x as int, y as int, include_idle, 9),
    {
        let w = self.width;
        let h = self.height;
        let xs: [usize; 3] = [ring_prev(x, w), x, ring_next(x, w)];
        let ys: [usize; 3] = [ring_prev(y, h), y, ring_next(y, h)];
        proof {
            lemma_wrap_step(x as int, w as int);
            lemma_wrap_step(y as int, h as int);
        }
        let mut count: usize = 0;
        let mut k: usize = 0;
        while k < 9
            invariant
                self.wf(),
                x < w == self.width,
                y < h == self.height,
                k <= 9,
                count <= k,
                count == self.window_count(x as int, y as int, include_idle, k as nat),
                forall|i: int| 0 <= i < 3 ==> #[trigger] xs@[i] == (x + i - 1) % (w as int),
                forall|j: int| 0 <= j < 3 ==> #[trigger] ys@[j] == (y + j - 1) % (h as int),
                forall|i: int| 0 <= i < 3 ==> #[trigger] xs@[i] < w,
                forall|j: int| 0 <= j < 3 ==> #[trigger] ys@[j] < h,
            decreases 9 - k,
        {
            if k != 4 {
                let i = k % 3;
                let j = k / 3;
                let ny = ys[j];
                let nx = xs[i];
                assert(self.cells_view()[ny as int].len() == w);
                let c = self.cells[ny][nx];
                let hit = if include_idle {
                    c.is_active()
                } else {
                    c == TritCell::Alive
                };
                if hit {
                    count = count + 1;
                }
            }
            k = k + 1;
        }
        count
    }

    /// Count Alive neighbors in the Moore neighborhood (8 cells), with wrapping.
    pub fn alive_neighbors(&self, x: usize, y: usize) -> (n: usize)
        requires
            self.wf(),
            0 < self.width,
            0 < self.height,
        ensures
            n == self.alive_around(x as int, y as int),
    {
        let xm = x % self.width;
        let ym = y % self.height;
        proof {
            self.lemma_neighbourhood_of_reduced(x as int, y as int);
            self.lemma_window_is_neighbourhood(xm as int, ym as int, false);
        }
        self.count_neighbours(xm, ym, false)
    }

    /// Count Idle + Alive neighbors in the Moore neighborhood, with wrapping.
    pub fn active_neighbors(&self, x: usize, y: usize) -> (n: usize)
        requires
            self.wf(),
            0 < self.width,
            0 < self.height,
        ensures
            n == self.active_around(x as int, y as int),
    {
        let xm = x % self.width;
        let ym = y % self.height;
        proof {
            self.lemma_neighbourhood_of_reduced(x as int, y as int);
            self.lemma_window_is_neighbourhood(xm as int, ym as int, true);
        }
        self.count_neighbours(xm, ym, true)
    }

    /// A centre and its reduction modulo the grid size have the same
    /// neighbourhood.
    proof fn lemma_neighbourhood_of_reduced(&self, x: int, y: int)
        requires
            0 < self.width,
            0 < self.height,
        ensures
            forall|include_idle: bool|
                #[trigger] self.neighbours_counted(x, y, include_idle) == self.neighbours_counted(
                    x % (self.width as int),
                    y % (self.height as int),
                    include_idle,
                ),
    {
        reveal(LifeGrid::neighbours_counted);
        let w = self.width as int;
        let h = self.height as int;
        assert forall|d: int| #![trigger (x + d) % w] (x % w + d) % w == (x + d) % w by {
            vstd::arithmetic::div_mod::lemma_add_mod_noop_right(d, x, w);
        }
        assert forall|d: int| #![trigger (y + d) % h] (y % h + d) % h == (y + d) % h by {
            vstd::arithmetic::div_mod::lemma_add_mod_noop_right(d, y, h);
        }
        assert((x % w + -1) % w == (x + -1) % w);
        assert((x % w + 0) % w == (x + 0) % w);
        assert((x % w + 1) % w == (x + 1) % w);
        assert((y % h + -1) % h == (y + -1) % h);
        assert((y % h + 0) % h == (y + 0) % h);
        assert((y % h + 1) % h == (y + 1) % h);
    }

    /// Counts the counted cells of the whole grid.
    fn count_cells(&self, include_idle: bool) -> (n: usize)
        requires
            cell_total(self.cells_view()) <= usize::MAX,
        ensures
            n == count_in_rows(self.cells_view(), include_idle),
    {
        let ghost rows = self.cells_view();
        let mut count: usize = 0;
        let mut y: usize = 0;
        while y < self.cells.len()
            invariant
                rows == self.cells_view(),
                rows.len() == self.cells@.len(),
                cell_total(rows) <= usize::MAX,
                y <= rows.len(),
                count == count_in_rows(rows.take(y as int), include_idle),
                count <= cell_total(rows.take(y as int)),
            decreases rows.len() - y,
        {
            let row = &self.cells[y];
            let ghost before = count;
            proof {
                assert(rows.take(y + 1).drop_last() =~= rows.take(y as int));
                lemma_cell_total_prefix(rows, y + 1);
            }
            let mut x: usize = 0;
            while x < row.len()
                invariant
                    rows == self.cells_view(),
                    y < rows.len(),
                    row@ == rows[y as int],
                    cell_total(rows.take(y as int)) + row@.len() <= usize::MAX,
                    before == count_in_rows(rows.take(y as int), include_idle),
                    before <= cell_total(rows.take(y as int)),
                    x <= row.len(),
                    count == before + count_in_row(row@.take(x as int), include_idle),
                    count <= before + x,
                decreases row.len() - x,
            {
                let c = row[x];
                let hit = if include_idle {
                    c.is_active()
                } else {
                    c == TritCell::Alive
                };
                assert(row@.take(x + 1).drop_last() =~= row@.take(x as int));
                if hit {
                    count = count + 1;
                }
                x = x + 1;
            }
            assert(row@.take(row@.len() as int) =~= row@);
            y = y + 1;
        }
        assert(rows.take(rows.len() as int) =~= rows);
        count
    }

    /// Count cells in the Alive state.
    pub fn population(&self) -> (n: usize)
        requires
            cell_total(self.cells_view()) <= usize::MAX,
        ensures
            n == count_in_rows(self.cells_view(), false),
    {
        self.count_cells(false)
    }

    /// Count cells in the Alive or Idle state.
    pub fn active_count(&self) -> (n: usize)
        requires
            cell_total(self.cells_view()) <= usize::MAX,
        ensures
            n == count_in_rows(self.cells_view(), true),
    {
        self.count_cells(true)
    }
}


/// Among the eight neighbours of a cell, the Alive ones are no more than the
/// active (Idle or Alive) ones, which are at most eight.
pub proof fn lemma_neighbour_counts_bounded(g: LifeGrid, x: int, y: int)
    ensures
        g.alive_around(x, y) <= g.active_around(x, y) <= 8,
{
    reveal(LifeGrid::neighbours_counted);
}

/// The Alive cells of a grid are no more than its active cells, which are at
/// most its number of cells, `width * height` for a well-formed grid.
pub proof fn lemma_population_bounded(g: LifeGrid)
    ensures
        count_in_rows(g.cells_view(), false) <= count_in_rows(g.cells_view(), true),
        count_in_rows(g.cells_view(), true) <= cell_total(g.cells_view()),
        g.wf() ==> cell_total(g.cells_view()) == g.width * g.height,
{
    lemma_count_in_rows_bounded(g.cells_view(), true);
    if g.wf() {
        lemma_cell_total_uniform(g.cells_view(), g.width as nat);
        assert(g.cells_view().len() * g.width == g.width * g.height) by (nonlinear_arith)
            requires g.cells_view().len() == g.height;
    }
}

/// A grid whose cells are all Dead has no Alive or active cells, and every
/// cell has no Alive or active neighbours.
pub proof fn lemma_dead_grid_is_empty(g: LifeGrid)
    requires
        g.wf(),
        forall|x: int, y: int|
            0 <= x < g.width && 0 <= y < g.height ==> #[trigger] g.cell(x, y) == TritCell::Dead,
    ensures
        count_in_rows(g.cells_view(), false) == 0,
        count_in_rows(g.cells_view(), true) == 0,
        forall|x: int, y: int|
            0 <= x < g.width && 0 <= y < g.height ==> #[trigger] g.alive_around(x, y) == 0
                && g.active_around(x, y) == 0,
{
    lemma_dead_rows_are_empty(g.cells_view(), g, g.height as nat);
    assert(g.cells_view().take(g.height as int) =~= g.cells_view());
    assert forall|x: int, y: int| 0 <= x < g.width && 0 <= y < g.height implies #[trigger] g.alive_around(x, y) == 0
        && g.active_around(x, y) == 0 by {
        lemma_dead_cell_neighbourhood(g, x, y);
    }
}

/// In a grid whose cells are all Dead, the cell at `(x, y)` has no Alive or
/// active neighbours.
pub proof fn lemma_dead_cell_neighbourhood(g: LifeGrid, x: int, y: int)
    requires
        g.wf(),
        0 <= x < g.width,
        0 <= y < g.height,
        forall|a: int, b: int|
            0 <= a < g.width && 0 <= b < g.height ==> #[trigger] g.cell(a, b) == TritCell::Dead,
    ensures
        g.alive_around(x, y) == 0,
        g.active_around(x, y) == 0,
{
    reveal(LifeGrid::neighbours_counted);
    assert forall|dx: int, dy: int| #[trigger] g.neighbour(x, y, dx, dy) == TritCell::Dead by {
        let a = (x + dx) % (g.width as int);
        let b = (y + dy) % (g.height as int);
        assert(g.cell(a, b) == TritCell::Dead);
    }
}

proof fn lemma_dead_rows_are_empty(rows: Seq<Seq<TritCell>>, g: LifeGrid, k: nat)
    requires
        g.wf(),
        rows == g.cells_view(),
        k <= g.height,
        forall|x: int, y: int|
            0 <= x < g.width && 0 <= y < g.height ==> #[trigger] g.cell(x, y) == TritCell::Dead,
    ensures
        count_in_rows(rows.take(k as int), false) == 0,
        count_in_rows(rows.take(k as int), true) == 0,
    decreases k,
{
    if k > 0 {
        lemma_dead_rows_are_empty(rows, g, (k - 1) as nat);
        assert(rows.take(k as int).drop_last() =~= rows.take(k - 1));
        lemma_dead_row_is_empty(rows[k - 1], g, k - 1, g.width as nat);
        assert(rows[k - 1].take(g.width as int) =~= rows[k - 1]);
    }
}

proof fn lemma_dead_row_is_empty(row: Seq<TritCell>, g: LifeGrid, y: int, k: nat)
    requires
        g.wf(),
        0 <= y < g.height,
        row == g.cells_view()[y],
        k <= g.width,
        forall|a: int, b: int|
            0 <= a < g.width && 0 <= b < g.height ==> #[trigger] g.cell(a, b) == TritCell::Dead,
    ensures
        count_in_row(row.take(k as int), false) == 0,
        count_in_row(row.take(k as int), true) == 0,
    decreases k,
{
    if k > 0 {
        lemma_dead_row_is_empty(row, g, y, (k - 1) as nat);
        assert(row.take(k as int).drop_last() =~= row.take(k - 1));
        assert(g.cell(k - 1, y) == TritCell::Dead);
    }
}

/// Reading a cell after writing it gives the written state; every other cell
/// keeps its state.
pub proof fn lemma_set_then_get(before: LifeGrid, after: LifeGrid, x: int, y: int, c: TritCell)
    requires
        before.wf(),
        after.wf(),
        after.width == before.width,
        after.height == before.height,
        0 <= x < before.width,
        0 <= y < before.height,
        after.cells_view() == before.cells_view().update(y, before.cells_view()[y].update(x, c)),
    ensures
        after.cell(x, y) == c,
        forall|a: int, b: int|
            0 <= a < before.width && 0 <= b < before.height && (a != x || b != y) ==> #[trigger] after.cell(a, b)
                == before.cell(a, b),
{
}


/// `shifted` is `g` moved by `(a, b)` around the torus: the same size, with the
/// cell at `(x, y)` of `shifted` equal to the cell at `(x + a, y + b)` of `g`,
/// wrapping around the edges.
pub open spec fn is_shift_of(shifted: LifeGrid, g: LifeGrid, a: int, b: int) -> bool {
    &&& g.wf()
    &&& shifted.wf()
    &&& shifted.width == g.width
    &&& shifted.height == g.height
    &&& forall|x: int, y: int|
        0 <= x < g.width && 0 <= y < g.height ==> #[trigger] shifted.cell(x, y) == g.cell(
            (x + a) % (g.width as int),
            (y + b) % (g.height as int),
        )
}

/// Neighbour counts move with the torus: in a shifted grid, a cell has the
/// Alive and active neighbour counts of the cell it was shifted from.
pub proof fn lemma_shift_keeps_neighbourhood(shifted: LifeGrid, g: LifeGrid, a: int, b: int, x: int, y: int)
    requires
        is_shift_of(shifted, g, a, b),
        0 <= x < g.width,
        0 <= y < g.height,
    ensures
        shifted.alive_around(x, y) == g.alive_around(
            (x + a) % (g.width as int),
            (y + b) % (g.height as int),
        ),
        shifted.active_around(x, y) == g.active_around(
            (x + a) % (g.width as int),
            (y + b) % (g.height as int),
        ),
{
    reveal(LifeGrid::neighbours_counted);
    let w = g.width as int;
    let h = g.height as int;
    let xa = (x + a) % w;
    let yb = (y + b) % h;
    assert forall|dx: int, dy: int| -1 <= dx <= 1 && -1 <= dy <= 1 implies #[trigger] shifted.neighbour(x, y, dx, dy)
        == g.neighbour(xa, yb, dx, dy) by {
        vstd::arithmetic::div_mod::lemma_add_mod_noop_right(a, x + dx, w);
        vstd::arithmetic::div_mod::lemma_add_mod_noop_right(dx, x + a, w);
        vstd::arithmetic::div_mod::lemma_add_mod_noop_right(b, y + dy, h);
        vstd::arithmetic::div_mod::lemma_add_mod_noop_right(dy, y + b, h);
        assert((a + (x + dx) % w) % w == ((x + dx) % w + a) % w);
        assert((dx + xa) % w == (xa + dx) % w);
        assert((b + (y + dy) % h) % h == ((y + dy) % h + b) % h);
        assert((dy + yb) % h == (yb + dy) % h);
        assert(a + (x + dx) == dx + (x + a));
        assert(b + (y + dy) == dy + (y + b));
        assert(shifted.cell((x + dx) % w, (y + dy) % h) == g.cell(
            ((x + dx) % w + a) % w,
            ((y + dy) % h + b) % h,
        ));
    }
    assert(shifted.neighbour(x, y, -1, -1) == g.neighbour(xa, yb, -1, -1));
    assert(shifted.neighbour(x, y, 0, -1) == g.neighbour(xa, yb, 0, -1));
    assert(shifted.neighbour(x, y, 1, -1) == g.neighbour(xa, yb, 1, -1));
    assert(shifted.neighbour(x, y, -1, 0) == g.neighbour(xa, yb, -1, 0));
    assert(shifted.neighbour(x, y, 1, 0) == g.neighbour(xa, yb, 1, 0));
    assert(shifted.neighbour(x, y, -1, 1) == g.neighbour(xa, yb, -1, 1));
    assert(shifted.neighbour(x, y, 0, 1) == g.neighbour(xa, yb, 0, 1));
    assert(shifted.neighbour(x, y, 1, 1) == g.neighbour(xa, yb, 1, 1));
}


/// In a grid whose cells are all Alive, every cell has eight Alive and eight
/// active neighbours.
pub proof fn lemma_full_grid_neighbourhood(g: LifeGrid, x: int, y: int)
    requires
        g.wf(),
        0 <= x < g.width,
        0 <= y < g.height,
        forall|a: int, b: int|
            0 <= a < g.width && 0 <= b < g.height ==> #[trigger] g.cell(a, b) == TritCell::Alive,
    ensures
        g.alive_around(x, y) == 8,
        g.active_around(x, y) == 8,
{
    reveal(LifeGrid::neighbours_counted);
    assert forall|dx: int, dy: int| #[trigger] g.neighbour(x, y, dx, dy) == TritCell::Alive by {
        let a = (x + dx) % (g.width as int);
        let b = (y + dy) % (g.height as int);
        assert(g.cell(a, b) == TritCell::Alive);
    }
}

/// A cell never counts itself: on a grid at least two cells wide and high
/// where no other cell is Idle or Alive, a cell has no Alive or active
/// neighbours, whatever its own state.
pub proof fn lemma_cell_not_its_own_neighbour(g: LifeGrid, x: int, y: int)
    requires
        g.wf(),
        2 <= g.width,
        2 <= g.height,
        0 <= x < g.width,
        0 <= y < g.height,
        forall|a: int, b: int|
            0 <= a < g.width && 0 <= b < g.height && (a != x || b != y) ==> #[trigger] g.cell(a, b)
                == TritCell::Dead,
    ensures
        g.alive_around(x, y) == 0,
        g.active_around(x, y) == 0,
{
    reveal(LifeGrid::neighbours_counted);
    lemma_wrap_step(x, g.width as int);
    lemma_wrap_step(y, g.height as int);
    assert forall|dx: int, dy: int| -1 <= dx <= 1 && -1 <= dy <= 1 && (dx != 0 || dy != 0) implies #[trigger] g.neighbour(
        x,
        y,
        dx,
        dy,
    ) == TritCell::Dead by {
        let a = (x + dx) % (g.width as int);
        let b = (y + dy) % (g.height as int);
        assert(a != x || b != y);
        assert(g.cell(a, b) == TritCell::Dead);
    }
    assert(g.neighbour(x, y, -1, -1) == TritCell::Dead);
    assert(g.neighbour(x, y, 0, -1) == TritCell::Dead);
    assert(g.neighbour(x, y, 1, -1) == TritCell::Dead);
    assert(g.neighbour(x, y, -1, 0) == TritCell::Dead);
    assert(g.neighbour(x, y, 1, 0) == TritCell::Dead);
    assert(g.neighbour(x, y, -1, 1) == TritCell::Dead);
    assert(g.neighbour(x, y, 0, 1) == TritCell::Dead);
    assert(g.neighbour(x, y, 1, 1) == TritCell::Dead);
}

} // verus!
