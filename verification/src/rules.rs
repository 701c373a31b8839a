//! The three rule families and the automata that apply them.
use vstd::prelude::*;

use crate::cell::TritCell;
use crate::grid::{is_shift_of, lemma_dead_cell_neighbourhood, lemma_shift_keeps_neighbourhood, LifeGrid};

verus! {

/// ThreeStateLife: Dead -> Alive on exactly 3 Alive neighbours; Alive -> Dead
/// on fewer than 2 or more than 3, -> Idle on exactly 2, stays on exactly 3;
/// Idle -> Alive on exactly 3, else -> Dead.
pub open spec fn three_state_rule(c: TritCell, alive: int) -> TritCell {
    match c {
        TritCell::Dead => if alive == 3 {
            TritCell::Alive
        } else {
            TritCell::Dead
        },
        TritCell::Alive => if alive < 2 || alive > 3 {
            TritCell::Dead
        } else if alive == 2 {
            TritCell::Idle
        } else {
            TritCell::Alive
        },
        TritCell::Idle => if alive == 3 {
            TritCell::Alive
        } else {
            TritCell::Dead
        },
    }
}

/// HighLifeTernary: Dead -> Alive on 3 or 6 Alive neighbours; Alive stays on
/// 2 or 3, else -> Idle; Idle always -> Dead.
pub open spec fn highlife_rule(c: TritCell, alive: int) -> TritCell {
    match c {
        TritCell::Dead => if alive == 3 || alive == 6 {
            TritCell::Alive
        } else {
            TritCell::Dead
        },
        TritCell::Alive => if alive == 2 || alive == 3 {
            TritCell::Alive
        } else {
            TritCell::Idle
        },
        TritCell::Idle => TritCell::Dead,
    }
}

/// The Day & Night birth counts {3, 6, 7, 8}.
pub open spec fn day_and_night_birth(n: int) -> bool {
    n == 3 || n == 6 || n == 7 || n == 8
}

/// The Day & Night survival counts {3, 4, 6, 7, 8}.
pub open spec fn day_and_night_survival(n: int) -> bool {
    n == 3 || n == 4 || n == 6 || n == 7 || n == 8
}

/// DayAndNightTernary: Dead -> Alive when the Alive neighbours are a birth
/// count; Alive stays when they are a survival count, else -> Idle; Idle ->
/// Alive when the active (Idle or Alive) neighbours are a birth count, else -> Dead.
pub open spec fn day_and_night_rule(c: TritCell, alive: int, active: int) -> TritCell {
    match c {
        TritCell::Dead => if day_and_night_birth(alive) {
            TritCell::Alive
        } else {
            TritCell::Dead
        },
        TritCell::Alive => if day_and_night_survival(alive) {
            TritCell::Alive
        } else {
            TritCell::Idle
        },
        TritCell::Idle => if day_and_night_birth(active) {
            TritCell::Alive
        } else {
            TritCell::Dead
        },
    }
}

impl LifeGrid {
    /// The cells after one ThreeStateLife generation, applied to all cells at once.
    pub open spec fn three_state_successor(&self) -> Seq<Seq<TritCell>> {
        Seq::new(
            self.height as nat,
            |y: int|
                Seq::new(
                    self.width as nat,
                    |x: int| three_state_rule(self.cell(x, y), self.alive_around(x, y) as int),
                ),
        )
    }

    /// The cells after one HighLifeTernary generation, applied to all cells at once.
    pub open spec fn highlife_successor(&self) -> Seq<Seq<TritCell>> {
        Seq::new(
            self.height as nat,
            |y: int|
                Seq::new(
                    self.width as nat,
                    |x: int| highlife_rule(self.cell(x, y), self.alive_around(x, y) as int),
                ),
        )
    }

    /// The cells after one DayAndNightTernary generation, applied to all cells at once.
    pub open spec fn day_and_night_successor(&self) -> Seq<Seq<TritCell>> {
        Seq::new(
            self.height as nat,
            |y: int|
                Seq::new(
                    self.width as nat,
                    |x: int|
                        day_and_night_rule(
                            self.cell(x, y),
                            self.alive_around(x, y) as int,
                            self.active_around(x, y) as int,
                        ),
                ),
        )
    }

    /// The cells with every position listed in `pattern` set to Alive.
    pub open spec fn painted(&self, pattern: Seq<(usize, usize)>) -> Seq<Seq<TritCell>> {
        Seq::new(
            self.cells_view().len(),
            |y: int|
                Seq::new(
                    self.cells_view()[y].len(),
                    |x: int|
                        if covers(pattern, x, y) {
                            TritCell::Alive
                        } else {
                            self.cell(x, y)
                        },
                ),
        )
    }
}

/// Some entry of `pattern` is the position `(x, y)`.
pub open spec fn covers(pattern: Seq<(usize, usize)>, x: int, y: int) -> bool {
    exists|i: int| 0 <= i < pattern.len() && #[trigger] pattern[i].0 == x && pattern[i].1 == y
}

/// Which rule family a generation follows.
pub(crate) enum Family {
    ThreeState,
    HighLife,
    DayAndNight,
}

/// The next state of the cell at `(x, y)` under the given family.
pub(crate) open spec fn next_state(family: Family, g: LifeGrid, x: int, y: int) -> TritCell {
    match family {
        Family::ThreeState => three_state_rule(g.cell(x, y), g.alive_around(x, y) as int),
        Family::HighLife => highlife_rule(g.cell(x, y), g.alive_around(x, y) as int),
        Family::DayAndNight => day_and_night_rule(
            g.cell(x, y),
            g.alive_around(x, y) as int,
            g.active_around(x, y) as int,
        ),
    }
}

/// The next state of one cell under the given family, from its current
/// state and its Alive and active neighbour counts.
fn apply_rule(family: &Family, current: TritCell, an: usize, aact: usize) -> (r: TritCell)
    ensures
        r == match *family {
            Family::ThreeState => three_state_rule(current, an as int),
            Family::HighLife => highlife_rule(current, an as int),
            Family::DayAndNight => day_and_night_rule(current, an as int, aact as int),
        },
{
    match family {
        Family::ThreeState => match current {
            TritCell::Dead => if an == 3 {
                TritCell::Alive
            } else {
                TritCell::Dead
            },
            TritCell::Alive => if an < 2 || an > 3 {
                TritCell::Dead
            } else if an == 2 {
                TritCell::Idle
            } else {
                TritCell::Alive
            },
            TritCell::Idle => if an == 3 {
                TritCell::Alive
            } else {
                TritCell::Dead
            },
        },
        Family::HighLife => match current {
            TritCell::Dead => if an == 3 || an == 6 {
                TritCell::Alive
            } else {
                TritCell::Dead
            },
            TritCell::Alive => if an == 2 || an == 3 {
                TritCell::Alive
            } else {
                TritCell::Idle
            },
            TritCell::Idle => TritCell::Dead,
        },
        Family::DayAndNight => match current {
            TritCell::Dead => if an == 3 || an == 6 || an == 7 || an == 8 {
                TritCell::Alive
            } else {
                TritCell::Dead
            },
            TritCell::Alive => if an == 3 || an == 4 || an == 6 || an == 7 || an == 8 {
                TritCell::Alive
            } else {
                TritCell::Idle
            },
            TritCell::Idle => if aact == 3 || aact == 6 || aact == 7 || aact == 8 {
                TritCell::Alive
            } else {
                TritCell::Dead
            },
        },
    }
}

/// The cells of the next generation of `grid` under the given family.
pub(crate) fn successor_cells(grid: &LifeGrid, family: Family) -> (next: Vec<Vec<TritCell>>)
    requires
        grid.wf(),
    ensures
        next@.len() == grid.height,
        forall|y: int| 0 <= y < grid.height ==> #[trigger] next@[y]@.len() == grid.width,
        forall|x: int, y: int|
            0 <= x < grid.width && 0 <= y < grid.height ==> #[trigger] next@[y]@[x]
                == next_state(family, *grid, x, y),
{
    let w = grid.width;
    let h = grid.height;
    let mut next: Vec<Vec<TritCell>> = Vec::new();
    let mut y: usize = 0;
    while y < h
        invariant
            grid.wf(),
            w == grid.width,
            h == grid.height,
            y <= h,
            next@.len() == y,
            forall|j: int| 0 <= j < y ==> #[trigger] next@[j]@.len() == w,
            forall|i: int, j: int|
                0 <= i < w && 0 <= j < y ==> #[trigger] next@[j]@[i] == next_state(family, *grid, i, j),
        decreases h - y,
    {
        let mut row: Vec<TritCell> = Vec::new();
        let mut x: usize = 0;
        while x < w
            invariant
                grid.wf(),
                w == grid.width,
                h == grid.height,
                y < h,
                x <= w,
                row@.len() == x,
                forall|i: int| 0 <= i < x ==> #[trigger] row@[i] == next_state(family, *grid, i, y as int),
            decreases w - x,
        {
            let an = grid.alive_neighbors(x, y);
            let aact = match family {
                Family::DayAndNight => grid.active_neighbors(x, y),
                _ => 0,
            };
            let current = grid.get(x, y);
            row.push(apply_rule(&family, current, an, aact));
            x = x + 1;
        }
        next.push(row);
        y = y + 1;
    }
    next
}


/// Sets every position of `pattern` to Alive.
fn paint_alive(grid: &mut LifeGrid, pattern: &[(usize, usize)])
    requires
        forall|i: int| 0 <= i < pattern@.len() ==> #[trigger] old(grid).holds(pattern@[i]),
    ensures
        old(grid).wf() ==> final(grid).wf(),
        final(grid).width == old(grid).width,
        final(grid).height == old(grid).height,
        final(grid).generation == old(grid).generation,
        final(grid).cells_view() == old(grid).painted(pattern@),
{
    let ghost start = *grid;
    assert(grid.cells_view() =~~= start.painted(pattern@.take(0)));
    let mut k: usize = 0;
    while k < pattern.len()
        invariant
            start == *old(grid),
            start.wf() ==> grid.wf(),
            grid.width == start.width,
            grid.height == start.height,
            grid.generation == start.generation,
            k <= pattern@.len(),
            forall|i: int| 0 <= i < pattern@.len() ==> #[trigger] start.holds(pattern@[i]),
            grid.cells_view() == start.painted(pattern@.take(k as int)),
        decreases pattern.len() - k,
    {
        let (x, y) = pattern[k];
        proof {
            assert(start.holds(pattern@[k as int]));
            assert(grid.cells_view()[y as int].len() == start.cells_view()[y as int].len());
        }
        grid.set(x, y, TritCell::Alive);
        proof {
            let p0 = pattern@.take(k as int);
            let p1 = pattern@.take(k + 1);
            assert forall|a: int, b: int| 0 <= b < start.cells_view().len() && 0 <= a < start.cells_view()[b].len() implies
                #[trigger] covers(p1, a, b) == (covers(p0, a, b) || (a == x && b == y)) by {
                if covers(p0, a, b) {
                    let i = choose|i: int| 0 <= i < p0.len() && #[trigger] p0[i].0 == a && p0[i].1 == b;
                    assert(p1[i] == p0[i]);
                }
                if a == x && b == y {
                    assert(p1[k as int].0 == a);
                }
                if covers(p1, a, b) {
                    let i = choose|i: int| 0 <= i < p1.len() && #[trigger] p1[i].0 == a && p1[i].1 == b;
                    if i < k {
                        assert(p0[i] == p1[i]);
                    }
                }
            }
            assert(grid.cells_view() =~~= start.painted(p1));
        }
        k = k + 1;
    }
    assert(pattern@.take(pattern@.len() as int) =~= pattern@);
}

/// ThreeStateLife: Conway's Life with an Idle refractory state.
pub struct ThreeStateLife {
    pub grid: LifeGrid,
}

impl ThreeStateLife {
    /// A simulation on a `width` x `height` grid, all cells Dead.
    pub fn new(width: usize, height: usize) -> (sim: Self)
        ensures
            sim.grid.wf(),
            sim.grid.width == width,
            sim.grid.height == height,
            sim.grid.generation == 0,
            forall|x: int, y: int|
                0 <= x < width && 0 <= y < height ==> #[trigger] sim.grid.cell(x, y) == TritCell::Dead,
    {
        ThreeStateLife { grid: LifeGrid::new(width, height) }
    }

    /// Advances one generation, applying the rule to all cells at once.
    pub fn step(&mut self)
        requires
            old(self).grid.wf(),
            old(self).grid.generation < u64::MAX,
        ensures
            final(self).grid.wf(),
            final(self).grid.width == old(self).grid.width,
            final(self).grid.height == old(self).grid.height,
            final(self).grid.generation == old(self).grid.generation + 1,
            final(self).grid.cells_view() == old(self).grid.three_state_successor(),
    {
        let next = successor_cells(&self.grid, Family::ThreeState);
        let ghost before = self.grid;
        self.grid.cells = next;
        self.grid.generation = self.grid.generation + 1;
        assert(self.grid.cells_view() =~~= before.three_state_successor());
    }

    /// Set the given positions to Alive.
    pub fn set_pattern(&mut self, pattern: &[(usize, usize)])
        requires
            forall|i: int| 0 <= i < pattern@.len() ==> #[trigger] old(self).grid.holds(pattern@[i]),
        ensures
            old(self).grid.wf() ==> final(self).grid.wf(),
            final(self).grid.width == old(self).grid.width,
            final(self).grid.height == old(self).grid.height,
            final(self).grid.generation == old(self).grid.generation,
            final(self).grid.cells_view() == old(self).grid.painted(pattern@),
    {
        paint_alive(&mut self.grid, pattern);
    }
}

/// HighLifeTernary: HighLife (B36/S23) where failing to survive leads to Idle.
pub struct HighLifeTernary {
    pub grid: LifeGrid,
}

impl HighLifeTernary {
    /// A simulation on a `width` x `height` grid, all cells Dead.
    pub fn new(width: usize, height: usize) -> (sim: Self)
        ensures
            sim.grid.wf(),
            sim.grid.width == width,
            sim.grid.height == height,
            sim.grid.generation == 0,
            forall|x: int, y: int|
                0 <= x < width && 0 <= y < height ==> #[trigger] sim.grid.cell(x, y) == TritCell::Dead,
    {
        HighLifeTernary { grid: LifeGrid::new(width, height) }
    }

    /// Advances one generation, applying the rule to all cells at once.
    pub fn step(&mut self)
        requires
            old(self).grid.wf(),
            old(self).grid.generation < u64::MAX,
        ensures
            final(self).grid.wf(),
            final(self).grid.width == old(self).grid.width,
            final(self).grid.height == old(self).grid.height,
            final(self).grid.generation == old(self).grid.generation + 1,
            final(self).grid.cells_view() == old(self).grid.highlife_successor(),
    {
        let next = successor_cells(&self.grid, Family::HighLife);
        let ghost before = self.grid;
        self.grid.cells = next;
        self.grid.generation = self.grid.generation + 1;
        assert(self.grid.cells_view() =~~= before.highlife_successor());
    }

    /// Set the given positions to Alive.
    pub fn set_pattern(&mut self, pattern: &[(usize, usize)])
        requires
            forall|i: int| 0 <= i < pattern@.len() ==> #[trigger] old(self).grid.holds(pattern@[i]),
        ensures
            old(self).grid.wf() ==> final(self).grid.wf(),
            final(self).grid.width == old(self).grid.width,
            final(self).grid.height == old(self).grid.height,
            final(self).grid.generation == old(self).grid.generation,
            final(self).grid.cells_view() == old(self).grid.painted(pattern@),
    {
        paint_alive(&mut self.grid, pattern);
    }
}

/// DayAndNightTernary: Day & Night (B3678/S34678) with an Idle state.
pub struct DayAndNightTernary {
    pub grid: LifeGrid,
}

impl DayAndNightTernary {
    /// A simulation on a `width` x `height` grid, all cells Dead.
    pub fn new(width: usize, height: usize) -> (sim: Self)
        ensures
            sim.grid.wf(),
            sim.grid.width == width,
            sim.grid.height == height,
            sim.grid.generation == 0,
            forall|x: int, y: int|
                0 <= x < width && 0 <= y < height ==> #[trigger] sim.grid.cell(x, y) == TritCell::Dead,
    {
        DayAndNightTernary { grid: LifeGrid::new(width, height) }
    }

    /// Advances one generation, applying the rule to all cells at once.
    pub fn step(&mut self)
        requires
            old(self).grid.wf(),
            old(self).grid.generation < u64::MAX,
        ensures
            final(self).grid.wf(),
            final(self).grid.width == old(self).grid.width,
            final(self).grid.height == old(self).grid.height,
            final(self).grid.generation == old(self).grid.generation + 1,
            final(self).grid.cells_view() == old(self).grid.day_and_night_successor(),
    {
        let next = successor_cells(&self.grid, Family::DayAndNight);
        let ghost before = self.grid;
        self.grid.cells = next;
        self.grid.generation = self.grid.generation + 1;
        assert(self.grid.cells_view() =~~= before.day_and_night_successor());
    }

    /// Set the given positions to Alive.
    pub fn set_pattern(&mut self, pattern: &[(usize, usize)])
        requires
            forall|i: int| 0 <= i < pattern@.len() ==> #[trigger] old(self).grid.holds(pattern@[i]),
        ensures
            old(self).grid.wf() ==> final(self).grid.wf(),
            final(self).grid.width == old(self).grid.width,
            final(self).grid.height == old(self).grid.height,
            final(self).grid.generation == old(self).grid.generation,
            final(self).grid.cells_view() == old(self).grid.painted(pattern@),
    {
        paint_alive(&mut self.grid, pattern);
    }
}


/// A grid whose cells are all Dead is left unchanged by one generation of
/// every rule family: an empty grid stays empty.
pub proof fn lemma_dead_grid_is_still(g: LifeGrid)
    requires
        g.wf(),
        forall|x: int, y: int|
            0 <= x < g.width && 0 <= y < g.height ==> #[trigger] g.cell(x, y) == TritCell::Dead,
    ensures
        g.three_state_successor() == g.cells_view(),
        g.highlife_successor() == g.cells_view(),
        g.day_and_night_successor() == g.cells_view(),
{
    assert forall|x: int, y: int| 0 <= x < g.width && 0 <= y < g.height implies {
        &&& #[trigger] g.three_state_successor()[y][x] == g.cells_view()[y][x]
        &&& g.highlife_successor()[y][x] == g.cells_view()[y][x]
        &&& g.day_and_night_successor()[y][x] == g.cells_view()[y][x]
    } by {
        assert(g.cell(x, y) == TritCell::Dead);
        lemma_dead_cell_neighbourhood(g, x, y);
    }
    assert(g.three_state_successor() =~~= g.cells_view());
    assert(g.highlife_successor() =~~= g.cells_view());
    assert(g.day_and_night_successor() =~~= g.cells_view());
}

/// Under HighLifeTernary an Idle cell always decays to Dead in one
/// generation, and an Alive cell never becomes Dead directly.
pub proof fn lemma_highlife_idle_decays(g: LifeGrid, x: int, y: int)
    requires
        g.wf(),
        0 <= x < g.width,
        0 <= y < g.height,
    ensures
        g.cell(x, y) == TritCell::Idle ==> g.highlife_successor()[y][x] == TritCell::Dead,
        g.cell(x, y) == TritCell::Alive ==> g.highlife_successor()[y][x] != TritCell::Dead,
{
}

/// A grid is a still life under ThreeStateLife exactly when it has no Idle
/// cells, every Alive cell has exactly 3 Alive neighbours, and no Dead cell
/// has exactly 3.
pub proof fn lemma_still_life_characterised(g: LifeGrid)
    requires
        g.wf(),
    ensures
        (g.three_state_successor() == g.cells_view()) <==> forall|x: int, y: int|
            0 <= x < g.width && 0 <= y < g.height ==> {
                ||| #[trigger] g.cell(x, y) == TritCell::Alive && g.alive_around(x, y) == 3
                ||| g.cell(x, y) == TritCell::Dead && g.alive_around(x, y) != 3
            },
{
    if g.three_state_successor() == g.cells_view() {
        assert forall|x: int, y: int| 0 <= x < g.width && 0 <= y < g.height implies {
            ||| #[trigger] g.cell(x, y) == TritCell::Alive && g.alive_around(x, y) == 3
            ||| g.cell(x, y) == TritCell::Dead && g.alive_around(x, y) != 3
        } by {
            assert(g.three_state_successor()[y][x] == g.cells_view()[y][x]);
        }
    }
    if forall|x: int, y: int|
        0 <= x < g.width && 0 <= y < g.height ==> {
            ||| #[trigger] g.cell(x, y) == TritCell::Alive && g.alive_around(x, y) == 3
            ||| g.cell(x, y) == TritCell::Dead && g.alive_around(x, y) != 3
        } {
        assert forall|x: int, y: int| 0 <= x < g.width && 0 <= y < g.height implies #[trigger] g.three_state_successor()[y][x]
            == g.cells_view()[y][x] by {
            assert(g.cell(x, y) == g.cells_view()[y][x]);
        }
        assert(g.three_state_successor() =~~= g.cells_view());
    }
}


/// Every rule commutes with moving the pattern around the torus: the next
/// generation of a shifted grid is the shifted next generation.
pub proof fn lemma_step_commutes_with_shift(shifted: LifeGrid, g: LifeGrid, a: int, b: int)
    requires
        is_shift_of(shifted, g, a, b),
    ensures
        forall|x: int, y: int|
            0 <= x < g.width && 0 <= y < g.height ==> #[trigger] shifted.three_state_successor()[y][x]
                == g.three_state_successor()[(y + b) % (g.height as int)][(x + a) % (g.width as int)],
        forall|x: int, y: int|
            0 <= x < g.width && 0 <= y < g.height ==> #[trigger] shifted.highlife_successor()[y][x]
                == g.highlife_successor()[(y + b) % (g.height as int)][(x + a) % (g.width as int)],
        forall|x: int, y: int|
            0 <= x < g.width && 0 <= y < g.height ==> #[trigger] shifted.day_and_night_successor()[y][x]
                == g.day_and_night_successor()[(y + b) % (g.height as int)][(x + a) % (g.width as int)],
{
    assert forall|x: int, y: int| 0 <= x < g.width && 0 <= y < g.height implies #[trigger] shifted.three_state_successor()[y][x]
        == g.three_state_successor()[(y + b) % (g.height as int)][(x + a) % (g.width as int)] by {
        lemma_step_commutes_at(shifted, g, a, b, x, y);
    }
    assert forall|x: int, y: int| 0 <= x < g.width && 0 <= y < g.height implies #[trigger] shifted.highlife_successor()[y][x]
        == g.highlife_successor()[(y + b) % (g.height as int)][(x + a) % (g.width as int)] by {
        lemma_step_commutes_at(shifted, g, a, b, x, y);
    }
    assert forall|x: int, y: int| 0 <= x < g.width && 0 <= y < g.height implies #[trigger] shifted.day_and_night_successor()[y][x]
        == g.day_and_night_successor()[(y + b) % (g.height as int)][(x + a) % (g.width as int)] by {
        lemma_step_commutes_at(shifted, g, a, b, x, y);
    }
}

proof fn lemma_step_commutes_at(shifted: LifeGrid, g: LifeGrid, a: int, b: int, x: int, y: int)
    requires
        is_shift_of(shifted, g, a, b),
        0 <= x < g.width,
        0 <= y < g.height,
    ensures
        shifted.three_state_successor()[y][x]
            == g.three_state_successor()[(y + b) % (g.height as int)][(x + a) % (g.width as int)],
        shifted.highlife_successor()[y][x]
            == g.highlife_successor()[(y + b) % (g.height as int)][(x + a) % (g.width as int)],
        shifted.day_and_night_successor()[y][x]
            == g.day_and_night_successor()[(y + b) % (g.height as int)][(x + a) % (g.width as int)],
{
    let xa = (x + a) % (g.width as int);
    let yb = (y + b) % (g.height as int);
    lemma_shift_keeps_neighbourhood(shifted, g, a, b, x, y);
    assert(shifted.cell(x, y) == g.cell(xa, yb));
    assert(0 <= xa < g.width && 0 <= yb < g.height);
    assert(g.three_state_successor()[yb][xa] == three_state_rule(g.cell(xa, yb), g.alive_around(xa, yb) as int));
    assert(g.highlife_successor()[yb][xa] == highlife_rule(g.cell(xa, yb), g.alive_around(xa, yb) as int));
    assert(g.day_and_night_successor()[yb][xa] == day_and_night_rule(
        g.cell(xa, yb),
        g.alive_around(xa, yb) as int,
        g.active_around(xa, yb) as int,
    ));
}


/// The ThreeStateLife table, cell by cell, over every grid: a Dead cell is
/// born on exactly 3 Alive neighbours and stays Dead otherwise; an Alive cell
/// dies on fewer than 2 or more than 3, becomes Idle on exactly 2 and stays
/// Alive on exactly 3; an Idle cell is reborn on exactly 3 and dies otherwise.
pub proof fn lemma_three_state_table(g: LifeGrid, x: int, y: int)
    requires
        g.wf(),
        0 <= x < g.width,
        0 <= y < g.height,
    ensures
        g.cell(x, y) == TritCell::Dead && g.alive_around(x, y) == 3
            ==> g.three_state_successor()[y][x] == TritCell::Alive,
        g.cell(x, y) == TritCell::Dead && g.alive_around(x, y) != 3
            ==> g.three_state_successor()[y][x] == TritCell::Dead,
        g.cell(x, y) == TritCell::Alive && (g.alive_around(x, y) < 2 || g.alive_around(x, y) > 3)
            ==> g.three_state_successor()[y][x] == TritCell::Dead,
        g.cell(x, y) == TritCell::Alive && g.alive_around(x, y) == 2
            ==> g.three_state_successor()[y][x] == TritCell::Idle,
        g.cell(x, y) == TritCell::Alive && g.alive_around(x, y) == 3
            ==> g.three_state_successor()[y][x] == TritCell::Alive,
        g.cell(x, y) == TritCell::Idle && g.alive_around(x, y) == 3
            ==> g.three_state_successor()[y][x] == TritCell::Alive,
        g.cell(x, y) == TritCell::Idle && g.alive_around(x, y) != 3
            ==> g.three_state_successor()[y][x] == TritCell::Dead,
{
}

/// The HighLifeTernary table, cell by cell, over every grid: a Dead cell is
/// born on 3 or 6 Alive neighbours and stays Dead otherwise; an Alive cell
/// stays Alive on 2 or 3 and becomes Idle otherwise; an Idle cell always
/// becomes Dead.
pub proof fn lemma_highlife_table(g: LifeGrid, x: int, y: int)
    requires
        g.wf(),
        0 <= x < g.width,
        0 <= y < g.height,
    ensures
        g.cell(x, y) == TritCell::Dead && (g.alive_around(x, y) == 3 || g.alive_around(x, y) == 6)
            ==> g.highlife_successor()[y][x] == TritCell::Alive,
        g.cell(x, y) == TritCell::Dead && g.alive_around(x, y) != 3 && g.alive_around(x, y) != 6
            ==> g.highlife_successor()[y][x] == TritCell::Dead,
        g.cell(x, y) == TritCell::Alive && (g.alive_around(x, y) == 2 || g.alive_around(x, y) == 3)
            ==> g.highlife_successor()[y][x] == TritCell::Alive,
        g.cell(x, y) == TritCell::Alive && g.alive_around(x, y) != 2 && g.alive_around(x, y) != 3
            ==> g.highlife_successor()[y][x] == TritCell::Idle,
        g.cell(x, y) == TritCell::Idle ==> g.highlife_successor()[y][x] == TritCell::Dead,
{
}

/// The DayAndNightTernary table, cell by cell, over every grid: a Dead cell
/// is born when its Alive neighbours number 3, 6, 7 or 8 and stays Dead
/// otherwise; an Alive cell stays Alive when they number 3, 4, 6, 7 or 8 and
/// becomes Idle otherwise; an Idle cell is reborn when its active (Idle or
/// Alive) neighbours number 3, 6, 7 or 8 and becomes Dead otherwise.
pub proof fn lemma_day_and_night_table(g: LifeGrid, x: int, y: int)
    requires
        g.wf(),
        0 <= x < g.width,
        0 <= y < g.height,
    ensures
        g.cell(x, y) == TritCell::Dead ==> (g.day_and_night_successor()[y][x] == TritCell::Alive
            <==> (g.alive_around(x, y) == 3 || g.alive_around(x, y) == 6 || g.alive_around(x, y) == 7
            || g.alive_around(x, y) == 8)),
        g.cell(x, y) == TritCell::Dead ==> g.day_and_night_successor()[y][x] != TritCell::Idle,
        g.cell(x, y) == TritCell::Alive ==> (g.day_and_night_successor()[y][x] == TritCell::Alive
            <==> (g.alive_around(x, y) == 3 || g.alive_around(x, y) == 4 || g.alive_around(x, y) == 6
            || g.alive_around(x, y) == 7 || g.alive_around(x, y) == 8)),
        g.cell(x, y) == TritCell::Alive ==> g.day_and_night_successor()[y][x] != TritCell::Dead,
        g.cell(x, y) == TritCell::Idle ==> (g.day_and_night_successor()[y][x] == TritCell::Alive
            <==> (g.active_around(x, y) == 3 || g.active_around(x, y) == 6 || g.active_around(x, y) == 7
            || g.active_around(x, y) == 8)),
        g.cell(x, y) == TritCell::Idle ==> g.day_and_night_successor()[y][x] != TritCell::Idle,
{
}

/// After painting, every listed position of the grid holds Alive, whatever
/// it held before, and every position not listed keeps its state; the rows
/// keep their lengths.
pub proof fn lemma_painted_cells(g: LifeGrid, pattern: Seq<(usize, usize)>)
    ensures
        g.painted(pattern).len() == g.cells_view().len(),
        forall|y: int|
            0 <= y < g.cells_view().len() ==> #[trigger] g.painted(pattern)[y].len()
                == g.cells_view()[y].len(),
        forall|i: int|
            0 <= i < pattern.len() && #[trigger] g.holds(pattern[i]) ==> g.painted(
                pattern,
            )[pattern[i].1 as int][pattern[i].0 as int] == TritCell::Alive,
        forall|x: int, y: int|
            0 <= y < g.cells_view().len() && 0 <= x < g.cells_view()[y].len() && !(exists|i: int|
                0 <= i < pattern.len() && pattern[i].0 == x && pattern[i].1 == y) ==> #[trigger] g.painted(
                pattern,
            )[y][x] == g.cells_view()[y][x],
{
    assert forall|i: int| 0 <= i < pattern.len() && #[trigger] g.holds(pattern[i]) implies g.painted(
        pattern,
    )[pattern[i].1 as int][pattern[i].0 as int] == TritCell::Alive by {
        assert(covers(pattern, pattern[i].0 as int, pattern[i].1 as int));
    }
}

} // verus!
