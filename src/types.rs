use vstd::prelude::*;

verus! {

/// The owner of one cell of the grid.
#[derive(PartialEq, Eq, Structural, Clone, Copy, Debug)]
pub enum CellState {
    Neutral,
    Player1,
    Player2,
}

/// A position on the grid.
#[derive(PartialEq, Eq, Structural, Clone, Copy, Debug)]
pub struct Pos {
    pub x: usize,
    pub y: usize,
}

/// The digit of a state, in the order `Neutral`, `Player1`, `Player2`.
pub open spec fn state_digit(c: CellState) -> nat {
    match c {
        CellState::Neutral => 0,
        CellState::Player1 => 1,
        CellState::Player2 => 2,
    }
}

/// The short name of a state: `Neutral`, `Player1` or `Player2`.
pub open spec fn label_of(c: CellState) -> Seq<char> {
    match c {
        CellState::Neutral => "Neutral"@,
        CellState::Player1 => "Player1"@,
        CellState::Player2 => "Player2"@,
    }
}

/// The state whose digit is `k`, for `k` below three.
pub open spec fn digit_state(k: nat) -> CellState {
    if k == 0 {
        CellState::Neutral
    } else if k == 1 {
        CellState::Player1
    } else {
        CellState::Player2
    }
}

impl CellState {
    /// The short name of the state, for display.
    pub fn label(&self) -> (s: &'static str)
        ensures
            s@ == label_of(*self),
    {
        match self {
            CellState::Neutral => "Neutral",
            CellState::Player1 => "Player1",
            CellState::Player2 => "Player2",
        }
    }

    /// The state whose digit is `k`.
    pub fn from_index(k: usize) -> (c: CellState)
        requires
            k < 3,
        ensures
            state_digit(c) == k,
            c == digit_state(k as nat),
    {
        if k == 0 {
            CellState::Neutral
        } else if k == 1 {
            CellState::Player1
        } else {
            CellState::Player2
        }
    }
}

} // verus!
