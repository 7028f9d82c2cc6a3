use vstd::prelude::*;

verus! {

/// The process-wide turn phase: exactly one is active at a time, and it
/// selects which system group runs this tick.
#[derive(Clone, Copy, PartialEq, Eq, Structural, Debug)]
pub enum TurnState {
    AwaitingInput,
    PlayerTurn,
    MonsterTurn,
    GameOver,
}

/// A recognized movement key, one discrete action per tick; anything else the
/// input collaborator captured is ignored before it reaches the core.
#[derive(Clone, Copy, PartialEq, Eq, Structural, Debug)]
pub enum InputKey {
    Left,
    Right,
    Up,
    Down,
}

} // verus!
