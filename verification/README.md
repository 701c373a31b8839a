# ternary_diehard

Three-state cellular automata on toroidal grids: Conway's Game of Life with a
quiescent `Idle` state between `Dead` (-1) and `Alive` (1). Three rule families
are provided — `ThreeStateLife`, `HighLifeTernary` and `DayAndNightTernary` —
with analysis helpers: `detect_oscillation`, `find_still_life` and
`history_min_max`.

The library under `src/` is written in Verus, and every function carries a
contract proved by Verus:

- `src/cell.rs` — `TritCell`, its trit encoding and the round-trip laws.
- `src/grid.rs` — `LifeGrid`: cell access, wrapped Moore-neighbour counts,
  population counts, and laws on these counts.
- `src/rules.rs` — the three rules as spec functions, the automata whose
  `step` replaces the cells by the rule's successor of every cell at once,
  and laws such as "an empty grid stays empty", the still-life
  characterisation, and that every rule commutes with shifting the torus.
- `src/analysis.rs` — oscillation detection (smallest period 2..=10),
  still-life test, and min/max of a population history; older history put
  before a history keeps the period found.

`app/lib.rs` holds `PopulationStats`, whose mean and variance are floating
point; its min and max come from `history_min_max`. Tests are in `tests/`.
