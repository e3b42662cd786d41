//! The three-state excitable automaton.
//!
//! A live cell always starts dying, a dying cell always dies, and a dead
//! cell comes alive exactly when two of its neighbors are alive.

use vstd::prelude::*;

verus! {

/// The state of one cell of the excitable automaton.
#[derive(Clone, Copy, Debug, PartialEq, Eq, Structural)]
pub enum Brain {
    Dead,
    Dying,
    Alive,
}

/// Parameters of the excitable automaton: the chance, in percent, that a
/// cell starts out alive.
#[derive(Clone, Copy, Debug, PartialEq, Eq, Structural)]
pub struct BrainParams {
    pub alive_percent: u8,
}

/// The transition of the excitable automaton, given the number of live
/// neighbors.
pub open spec fn spec_brain_next(state: Brain, count: int) -> Brain {
    match state {
        Brain::Alive => Brain::Dying,
        Brain::Dying => Brain::Dead,
        Brain::Dead => if count == 2 {
            Brain::Alive
        } else {
            Brain::Dead
        },
    }
}

/// Computes the next state of a cell of the excitable automaton from its
/// live-neighbor count.
pub fn brain_next(state: Brain, count: usize) -> (r: Brain)
    ensures
        r == spec_brain_next(state, count as int),
{
    match state {
        Brain::Alive => Brain::Dying,
        Brain::Dying => Brain::Dead,
        Brain::Dead => {
            if count == 2 {
                Brain::Alive
            } else {
                Brain::Dead
            }
        },
    }
}

} // verus!
