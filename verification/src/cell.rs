//! The state of a single cell: a trit.
use vstd::prelude::*;

verus! {

/// A single ternary cell state, encoded by the trits -1, 0 and 1.
#[derive(Clone, Copy, PartialEq, Eq, Debug, Structural)]
pub enum TritCell {
    Dead,
    Idle,
    Alive,
}

/// The trit that encodes a cell state.
pub open spec fn trit_of(c: TritCell) -> int {
    match c {
        TritCell::Dead => -1,
        TritCell::Idle => 0,
        TritCell::Alive => 1,
    }
}

/// The cell state that a trit encodes, if any.
pub open spec fn cell_of_trit(t: int) -> Option<TritCell> {
    if t == -1 {
        Some(TritCell::Dead)
    } else if t == 0 {
        Some(TritCell::Idle)
    } else if t == 1 {
        Some(TritCell::Alive)
    } else {
        None
    }
}

/// A cell is active when it is Idle or Alive, that is, not Dead.
pub open spec fn active(c: TritCell) -> bool {
    c != TritCell::Dead
}

impl TritCell {
    /// Returns true if the cell is Idle or Alive (i.e. not Dead).
    pub fn is_active(&self) -> (r: bool)
        ensures
            r == active(*self),
    {
        match self {
            TritCell::Dead => false,
            _ => true,
        }
    }

    /// Construct from a trit value: -1 => Dead, 0 => Idle, 1 => Alive.
    /// Any other value yields `None`.
    pub fn from_trit(t: i8) -> (r: Option<TritCell>)
        ensures
            r == cell_of_trit(t as int),
    {
        match t {
            -1 => Some(TritCell::Dead),
            0 => Some(TritCell::Idle),
            1 => Some(TritCell::Alive),
            _ => None,
        }
    }

    /// Convert to its trit value.
    pub fn to_trit(&self) -> (r: i8)
        ensures
            r == trit_of(*self),
    {
        match self {
            TritCell::Dead => -1,
            TritCell::Idle => 0,
            TritCell::Alive => 1,
        }
    }
}

/// Converting a cell to its trit and back gives the same cell.
pub proof fn lemma_trit_round_trip(c: TritCell)
    ensures
        -1 <= trit_of(c) <= 1,
        cell_of_trit(trit_of(c)) == Some(c),
{
}

/// A trit decodes to a cell exactly when it lies in -1..=1, and the decoded
/// cell converts back to the same trit.
pub proof fn lemma_trit_decode_encode(t: int)
    ensures
        cell_of_trit(t) is Some <==> -1 <= t <= 1,
        cell_of_trit(t) matches Some(c) ==> trit_of(c) == t,
{
}

/// A cell is active exactly when its trit is not negative.
pub proof fn lemma_active_iff_nonnegative_trit(c: TritCell)
    ensures
        active(c) <==> trit_of(c) >= 0,
{
}

} // verus!
