use ternary_diehard::{
    detect_oscillation, find_still_life, DayAndNightTernary, HighLifeTernary, LifeGrid,
    ThreeStateLife, TritCell,
};

#[test]
fn trit_cell_active() {
    assert!(!TritCell::Dead.is_active());
    assert!(TritCell::Idle.is_active());
    assert!(TritCell::Alive.is_active());
}

#[test]
fn three_state_life_empty() {
    let mut sim = ThreeStateLife::new(10, 10);
    sim.step();
    assert_eq!(sim.grid.population(), 0);
    assert_eq!(sim.grid.active_count(), 0);
}

#[test]
fn three_state_life_birth() {
    let mut sim = ThreeStateLife::new(10, 10);
    sim.grid.set(4, 4, TritCell::Alive);
    sim.grid.set(5, 4, TritCell::Alive);
    sim.grid.set(6, 4, TritCell::Alive);
    assert_eq!(sim.grid.alive_neighbors(5, 5), 3);
    sim.step();
    assert_eq!(sim.grid.get(5, 5), TritCell::Alive);
}

#[test]
fn three_state_life_death_overcrowded() {
    let mut sim = ThreeStateLife::new(10, 10);
    sim.grid.set(5, 5, TritCell::Alive);
    sim.grid.set(4, 4, TritCell::Alive);
    sim.grid.set(5, 4, TritCell::Alive);
    sim.grid.set(6, 4, TritCell::Alive);
    sim.grid.set(4, 5, TritCell::Alive);
    sim.grid.set(6, 5, TritCell::Alive);
    assert_eq!(sim.grid.alive_neighbors(5, 5), 5);
    sim.step();
    assert_eq!(sim.grid.get(5, 5), TritCell::Dead);
}

#[test]
fn three_state_life_survives() {
    let mut sim = ThreeStateLife::new(10, 10);
    sim.grid.set(5, 5, TritCell::Alive);
    sim.grid.set(6, 5, TritCell::Alive);
    sim.grid.set(5, 6, TritCell::Alive);
    sim.grid.set(6, 6, TritCell::Alive);
    sim.step();
    assert_eq!(sim.grid.get(5, 5), TritCell::Alive);
    assert_eq!(sim.grid.get(6, 5), TritCell::Alive);
    assert_eq!(sim.grid.get(5, 6), TritCell::Alive);
    assert_eq!(sim.grid.get(6, 6), TritCell::Alive);
}

#[test]
fn highlife_born_on_six() {
    let mut sim = HighLifeTernary::new(10, 10);
    sim.grid.set(4, 4, TritCell::Alive);
    sim.grid.set(5, 4, TritCell::Alive);
    sim.grid.set(6, 4, TritCell::Alive);
    sim.grid.set(4, 5, TritCell::Alive);
    sim.grid.set(6, 5, TritCell::Alive);
    sim.grid.set(4, 6, TritCell::Alive);
    assert_eq!(sim.grid.alive_neighbors(5, 5), 6);
    sim.step();
    assert_eq!(sim.grid.get(5, 5), TritCell::Alive);
}

#[test]
fn highlife_idle_transition() {
    let mut sim = HighLifeTernary::new(10, 10);
    sim.grid.set(5, 5, TritCell::Alive);
    assert_eq!(sim.grid.alive_neighbors(5, 5), 0);
    sim.step();
    assert_eq!(sim.grid.get(5, 5), TritCell::Idle);
}

#[test]
fn day_and_night_birth() {
    let mut sim = DayAndNightTernary::new(10, 10);
    sim.grid.set(4, 4, TritCell::Alive);
    sim.grid.set(5, 4, TritCell::Alive);
    sim.grid.set(6, 4, TritCell::Alive);
    assert_eq!(sim.grid.alive_neighbors(5, 5), 3);
    sim.step();
    assert_eq!(sim.grid.get(5, 5), TritCell::Alive);
}

#[test]
fn detect_oscillation_period2() {
    let history = vec![10, 5, 10, 5, 10, 5];
    assert_eq!(detect_oscillation(&history), Some(2));
}

#[test]
fn detect_oscillation_none() {
    let history = vec![1, 2, 3, 4, 5, 6, 7, 8, 9, 10];
    assert_eq!(detect_oscillation(&history), None);
}

#[test]
fn find_still_life_empty() {
    let grid = LifeGrid::new(8, 8);
    assert!(find_still_life(&grid));
}
