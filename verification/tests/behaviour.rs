use ternary_diehard::{
    detect_oscillation, find_still_life, history_min_max, DayAndNightTernary, HighLifeTernary,
    LifeGrid, ThreeStateLife, TritCell,
};

fn all_cells(grid: &LifeGrid) -> Vec<Vec<TritCell>> {
    grid.cells.clone()
}

#[test]
fn trit_round_trip_each_cell() {
    for c in [TritCell::Dead, TritCell::Idle, TritCell::Alive] {
        assert_eq!(TritCell::from_trit(c.to_trit()), Some(c));
    }
    assert_eq!(TritCell::Dead.to_trit(), -1);
    assert_eq!(TritCell::Idle.to_trit(), 0);
    assert_eq!(TritCell::Alive.to_trit(), 1);
}

#[test]
fn trit_out_of_range_is_rejected() {
    assert_eq!(TritCell::from_trit(2), None);
    assert_eq!(TritCell::from_trit(-2), None);
    assert_eq!(TritCell::from_trit(i8::MAX), None);
    assert_eq!(TritCell::from_trit(i8::MIN), None);
    for t in -1i8..=1 {
        assert_eq!(TritCell::from_trit(t).unwrap().to_trit(), t);
    }
}

#[test]
fn new_grid_is_all_dead() {
    let grid = LifeGrid::new(4, 3);
    assert_eq!(grid.width, 4);
    assert_eq!(grid.height, 3);
    assert_eq!(grid.generation, 0);
    assert_eq!(grid.cells.len(), 3);
    for row in &grid.cells {
        assert_eq!(row.len(), 4);
        assert!(row.iter().all(|c| *c == TritCell::Dead));
    }
}

#[test]
fn set_then_get_changes_one_cell() {
    let mut grid = LifeGrid::new(5, 5);
    grid.set(2, 3, TritCell::Idle);
    assert_eq!(grid.get(2, 3), TritCell::Idle);
    assert_eq!(grid.get(3, 2), TritCell::Dead);
    assert_eq!(grid.active_count(), 1);
    assert_eq!(grid.population(), 0);
}

#[test]
fn neighbours_wrap_around_the_edges() {
    let mut grid = LifeGrid::new(10, 10);
    grid.set(9, 9, TritCell::Alive);
    assert_eq!(grid.alive_neighbors(0, 0), 1);
    assert_eq!(grid.alive_neighbors(8, 0), 1);
    assert_eq!(grid.alive_neighbors(0, 8), 1);
    assert_eq!(grid.alive_neighbors(5, 5), 0);
}

#[test]
fn active_neighbours_count_idle_cells() {
    let mut grid = LifeGrid::new(6, 6);
    grid.set(1, 1, TritCell::Idle);
    grid.set(2, 1, TritCell::Alive);
    grid.set(3, 3, TritCell::Idle);
    assert_eq!(grid.alive_neighbors(2, 2), 1);
    assert_eq!(grid.active_neighbors(2, 2), 3);
}

#[test]
fn neighbour_counts_at_most_eight() {
    let mut grid = LifeGrid::new(3, 3);
    for y in 0..3 {
        for x in 0..3 {
            grid.set(x, y, TritCell::Alive);
        }
    }
    assert_eq!(grid.alive_neighbors(1, 1), 8);
    assert_eq!(grid.active_neighbors(1, 1), 8);
    assert_eq!(grid.population(), 9);
    assert_eq!(grid.active_count(), 9);
}

#[test]
fn one_cell_grid_sees_itself_eight_times() {
    let mut grid = LifeGrid::new(1, 1);
    grid.set(0, 0, TritCell::Alive);
    assert_eq!(grid.alive_neighbors(0, 0), 8);
    let mut sim = ThreeStateLife { grid };
    sim.step();
    assert_eq!(sim.grid.get(0, 0), TritCell::Dead);
}

#[test]
fn population_at_most_active_count() {
    let mut grid = LifeGrid::new(4, 4);
    grid.set(0, 0, TritCell::Alive);
    grid.set(1, 0, TritCell::Idle);
    grid.set(3, 3, TritCell::Alive);
    assert_eq!(grid.population(), 2);
    assert_eq!(grid.active_count(), 3);
}

#[test]
fn empty_grids_stay_empty_under_every_rule() {
    let mut a = ThreeStateLife::new(7, 5);
    let mut b = HighLifeTernary::new(7, 5);
    let mut c = DayAndNightTernary::new(7, 5);
    let before = all_cells(&a.grid);
    a.step();
    b.step();
    c.step();
    assert_eq!(all_cells(&a.grid), before);
    assert_eq!(all_cells(&b.grid), before);
    assert_eq!(all_cells(&c.grid), before);
    assert_eq!(a.grid.generation, 1);
    assert_eq!(b.grid.generation, 1);
    assert_eq!(c.grid.generation, 1);
}

#[test]
fn blinker_under_three_state_life() {
    let mut sim = ThreeStateLife::new(10, 10);
    sim.set_pattern(&[(4, 3), (4, 4), (4, 5)]);
    assert_eq!(sim.grid.population(), 3);
    sim.step();
    assert_eq!(sim.grid.get(4, 4), TritCell::Idle);
    assert_eq!(sim.grid.get(4, 3), TritCell::Dead);
    assert_eq!(sim.grid.get(4, 5), TritCell::Dead);
    assert_eq!(sim.grid.get(3, 4), TritCell::Alive);
    assert_eq!(sim.grid.get(5, 4), TritCell::Alive);
    assert_eq!(sim.grid.population(), 2);
    assert_eq!(sim.grid.active_count(), 3);
    assert_eq!(sim.grid.generation, 1);
}

#[test]
fn three_state_idle_fates() {
    let mut sim = ThreeStateLife::new(10, 10);
    sim.grid.set(5, 5, TritCell::Idle);
    sim.grid.set(4, 4, TritCell::Alive);
    sim.grid.set(5, 4, TritCell::Alive);
    sim.grid.set(6, 4, TritCell::Alive);
    sim.grid.set(1, 1, TritCell::Idle);
    sim.step();
    assert_eq!(sim.grid.get(5, 5), TritCell::Alive);
    assert_eq!(sim.grid.get(1, 1), TritCell::Dead);
}

#[test]
fn three_state_alive_with_two_goes_idle() {
    let mut sim = ThreeStateLife::new(10, 10);
    sim.grid.set(5, 5, TritCell::Alive);
    sim.grid.set(4, 4, TritCell::Alive);
    sim.grid.set(6, 6, TritCell::Alive);
    assert_eq!(sim.grid.alive_neighbors(5, 5), 2);
    sim.step();
    assert_eq!(sim.grid.get(5, 5), TritCell::Idle);
}

#[test]
fn highlife_idle_decays_to_dead() {
    let mut sim = HighLifeTernary::new(10, 10);
    sim.grid.set(5, 5, TritCell::Idle);
    sim.grid.set(4, 4, TritCell::Alive);
    sim.grid.set(5, 4, TritCell::Alive);
    sim.grid.set(6, 4, TritCell::Alive);
    sim.step();
    assert_eq!(sim.grid.get(5, 5), TritCell::Dead);
}

#[test]
fn highlife_alive_survives_on_two() {
    let mut sim = HighLifeTernary::new(10, 10);
    sim.set_pattern(&[(5, 5), (4, 4), (6, 6)]);
    sim.step();
    assert_eq!(sim.grid.get(5, 5), TritCell::Alive);
    assert_eq!(sim.grid.get(4, 4), TritCell::Idle);
}

#[test]
fn day_and_night_idle_uses_active_neighbours() {
    let mut sim = DayAndNightTernary::new(10, 10);
    sim.grid.set(5, 5, TritCell::Idle);
    sim.grid.set(4, 4, TritCell::Idle);
    sim.grid.set(5, 4, TritCell::Idle);
    sim.grid.set(6, 4, TritCell::Idle);
    assert_eq!(sim.grid.alive_neighbors(5, 5), 0);
    assert_eq!(sim.grid.active_neighbors(5, 5), 3);
    sim.step();
    assert_eq!(sim.grid.get(5, 5), TritCell::Alive);
}

#[test]
fn day_and_night_survival_and_idle() {
    let mut sim = DayAndNightTernary::new(10, 10);
    sim.set_pattern(&[(5, 5), (4, 4), (5, 4), (6, 4), (4, 5)]);
    sim.set_pattern(&[(2, 8), (3, 8)]);
    assert_eq!(sim.grid.alive_neighbors(5, 5), 4);
    sim.step();
    assert_eq!(sim.grid.get(5, 5), TritCell::Alive);
    assert_eq!(sim.grid.get(2, 8), TritCell::Idle);
}

#[test]
fn oscillation_picks_smallest_period() {
    assert_eq!(detect_oscillation(&[7, 7, 7, 7]), Some(2));
    assert_eq!(detect_oscillation(&[1, 2, 3, 1, 2, 3]), Some(3));
    assert_eq!(detect_oscillation(&[9, 1, 2, 3, 1, 2, 3]), Some(3));
}

#[test]
fn oscillation_needs_two_full_periods() {
    assert_eq!(detect_oscillation(&[]), None);
    assert_eq!(detect_oscillation(&[4, 5, 4]), None);
    let mut ten: Vec<usize> = (0..10).collect();
    let copy = ten.clone();
    ten.extend(copy);
    assert_eq!(detect_oscillation(&ten), Some(10));
    let mut eleven: Vec<usize> = (0..11).collect();
    let copy = eleven.clone();
    eleven.extend(copy);
    assert_eq!(detect_oscillation(&eleven), None);
}

#[test]
fn block_is_still_life_blinker_is_not() {
    let mut grid = LifeGrid::new(8, 8);
    grid.set(2, 2, TritCell::Alive);
    grid.set(3, 2, TritCell::Alive);
    grid.set(2, 3, TritCell::Alive);
    grid.set(3, 3, TritCell::Alive);
    assert!(find_still_life(&grid));
    let mut blinker = LifeGrid::new(8, 8);
    blinker.set(4, 3, TritCell::Alive);
    blinker.set(4, 4, TritCell::Alive);
    blinker.set(4, 5, TritCell::Alive);
    assert!(!find_still_life(&blinker));
}

#[test]
fn still_life_check_agrees_with_step() {
    let mut sim = ThreeStateLife::new(8, 8);
    sim.set_pattern(&[(2, 2), (3, 2), (2, 3), (3, 3)]);
    let before = all_cells(&sim.grid);
    assert!(find_still_life(&sim.grid));
    sim.step();
    assert_eq!(all_cells(&sim.grid), before);
}

#[test]
fn min_max_of_history() {
    assert_eq!(history_min_max(&[2, 4, 6, 8, 10]), (2, 10));
    assert_eq!(history_min_max(&[5, 1, 9, 1]), (1, 9));
    assert_eq!(history_min_max(&[3]), (3, 3));
    assert_eq!(history_min_max(&[]), (0, 0));
}

#[test]
fn neighbours_of_centres_outside_the_grid_wrap() {
    let mut grid = LifeGrid::new(10, 10);
    grid.set(9, 9, TritCell::Alive);
    grid.set(1, 0, TritCell::Idle);
    assert_eq!(grid.alive_neighbors(10, 10), grid.alive_neighbors(0, 0));
    assert_eq!(grid.alive_neighbors(10, 10), 1);
    assert_eq!(grid.active_neighbors(20, 30), 2);
    assert_eq!(grid.alive_neighbors(15, 5), 0);
}

#[test]
fn counts_and_access_on_ragged_rows() {
    let mut grid = LifeGrid {
        width: 0,
        height: 0,
        cells: vec![
            vec![TritCell::Alive, TritCell::Idle],
            vec![TritCell::Dead, TritCell::Alive, TritCell::Alive],
        ],
        generation: 0,
    };
    assert_eq!(grid.population(), 3);
    assert_eq!(grid.active_count(), 4);
    grid.set(2, 1, TritCell::Dead);
    assert_eq!(grid.get(2, 1), TritCell::Dead);
    assert_eq!(grid.get(1, 0), TritCell::Idle);
    assert_eq!(grid.population(), 2);
}

#[test]
fn set_pattern_on_ragged_rows() {
    let mut sim = HighLifeTernary {
        grid: LifeGrid {
            width: 0,
            height: 0,
            cells: vec![vec![TritCell::Dead], vec![TritCell::Dead, TritCell::Idle, TritCell::Dead]],
            generation: 0,
        },
    };
    sim.set_pattern(&[(0, 0), (2, 1)]);
    assert_eq!(sim.grid.get(0, 0), TritCell::Alive);
    assert_eq!(sim.grid.get(1, 1), TritCell::Idle);
    assert_eq!(sim.grid.get(2, 1), TritCell::Alive);
    assert_eq!(sim.grid.population(), 2);
}

fn shifted(grid: &LifeGrid, a: usize, b: usize) -> LifeGrid {
    let mut out = LifeGrid::new(grid.width, grid.height);
    for y in 0..grid.height {
        for x in 0..grid.width {
            out.set(x, y, grid.get((x + a) % grid.width, (y + b) % grid.height));
        }
    }
    out
}

#[test]
fn steps_commute_with_shifting_the_torus() {
    let pattern = [(1, 1), (2, 1), (3, 1), (3, 2), (2, 3), (0, 4), (6, 5), (7, 5), (7, 6)];
    let (a, b) = (3, 5);

    let mut t = ThreeStateLife::new(8, 7);
    t.set_pattern(&pattern);
    t.grid.set(5, 0, TritCell::Idle);
    let mut ts = ThreeStateLife { grid: shifted(&t.grid, a, b) };
    t.step();
    ts.step();
    assert_eq!(ts.grid.cells, shifted(&t.grid, a, b).cells);

    let mut h = HighLifeTernary::new(8, 7);
    h.set_pattern(&pattern);
    h.grid.set(5, 0, TritCell::Idle);
    let mut hs = HighLifeTernary { grid: shifted(&h.grid, a, b) };
    h.step();
    hs.step();
    assert_eq!(hs.grid.cells, shifted(&h.grid, a, b).cells);

    let mut d = DayAndNightTernary::new(8, 7);
    d.set_pattern(&pattern);
    d.grid.set(5, 0, TritCell::Idle);
    d.grid.set(2, 2, TritCell::Idle);
    let mut ds = DayAndNightTernary { grid: shifted(&d.grid, a, b) };
    d.step();
    ds.step();
    assert_eq!(ds.grid.cells, shifted(&d.grid, a, b).cells);
}

#[test]
fn older_history_keeps_the_period() {
    assert_eq!(detect_oscillation(&[10, 5, 10, 5]), Some(2));
    assert_eq!(detect_oscillation(&[3, 1, 4, 10, 5, 10, 5]), Some(2));
    assert_eq!(detect_oscillation(&[1, 2, 3, 1, 2, 3]), Some(3));
    assert_eq!(detect_oscillation(&[8, 8, 1, 2, 3, 1, 2, 3]), Some(3));
}
