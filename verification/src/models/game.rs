use vstd::prelude::*;

verus! {

/// Where a recorded game stands.
#[derive(Debug, Clone, Copy, PartialEq, Eq, Structural)]
pub enum GameStatus {
    InProgress,
    Completed,
}

} // verus!
