//! The closed set of automaton kinds: cell states, rule parameters, and
//! the dispatch of sampling, stepping and coloring over them.
//!
//! Every cell of one engine holds a state of the same kind as the engine's
//! rule parameters; `state_valid` captures that, together with the
//! kind-specific invariants.

use vstd::prelude::*;

verus! {

use crate::brain::{Brain, BrainParams, spec_brain_next, brain_next};
use crate::color::{Rgba, spec_white, spec_black, spec_blue, rgb};
use crate::cyclic::{
    Cyclic,
    CyclicParams,
    spec_cyclic_next,
    cyclic_target,
    lemma_cyclic_next_in_palette,
};
use crate::life::{Life, LifeParams, spec_life_next, life_next};

/// The state of one cell, tagged with its automaton kind.
#[derive(Clone, Copy, Debug, PartialEq, Eq, Structural)]
pub enum CellState {
    Life(Life),
    Cyclic(Cyclic),
    Brain(Brain),
}

/// The rule parameters of an engine, tagged with the automaton kind they
/// configure.  Shared read-only for the engine's whole lifetime.
#[derive(Clone, Debug)]
pub enum RuleParams {
    Life(LifeParams),
    Cyclic(CyclicParams),
    Brain(BrainParams),
}

/// Well-formed rule parameters: percentages at most 100, rule masks over
/// counts 0 through 8, a nonempty palette small enough to sample from,
/// and a threshold between 1 and 8.
pub open spec fn params_valid(p: RuleParams) -> bool {
    match p {
        RuleParams::Life(lp) => lp.alive_percent <= 100 && lp.rule.birth < 512 && lp.rule.survive
            < 512,
        RuleParams::Cyclic(cp) => 1 <= cp.threshold <= 8 && 1 <= cp.palette@.len()
            && cp.palette@.len() <= u32::MAX,
        RuleParams::Brain(bp) => bp.alive_percent <= 100,
    }
}

/// Whether a cell state belongs to the automaton kind of `p` and respects
/// its invariants (a cyclic value indexes into the palette).
pub open spec fn state_valid(s: CellState, p: RuleParams) -> bool {
    match (s, p) {
        (CellState::Life(_), RuleParams::Life(_)) => true,
        (CellState::Cyclic(c), RuleParams::Cyclic(cp)) => c.value < cp.palette@.len(),
        (CellState::Brain(_), RuleParams::Brain(_)) => true,
        _ => false,
    }
}

/// Checks `params_valid` at run time.
pub fn check_params(p: &RuleParams) -> (r: bool)
    ensures
        r == params_valid(*p),
{
    match p {
        RuleParams::Life(lp) => lp.alive_percent <= 100 && lp.rule.birth < 512 && lp.rule.survive
            < 512,
        RuleParams::Cyclic(cp) => 1 <= cp.threshold && cp.threshold <= 8 && 1 <= cp.palette.len()
            && cp.palette.len() <= u32::MAX as usize,
        RuleParams::Brain(bp) => bp.alive_percent <= 100,
    }
}

/// Checks `state_valid` at run time.
pub fn check_state(s: CellState, p: &RuleParams) -> (r: bool)
    ensures
        r == state_valid(s, *p),
{
    match (s, p) {
        (CellState::Life(_), RuleParams::Life(_)) => true,
        (CellState::Cyclic(c), RuleParams::Cyclic(cp)) => c.value < cp.palette.len(),
        (CellState::Brain(_), RuleParams::Brain(_)) => true,
        _ => false,
    }
}

/// How many entries of `s` equal `t`.
pub open spec fn count_matching(s: Seq<CellState>, t: CellState) -> int
    decreases s.len(),
{
    if s.len() == 0 {
        0
    } else {
        count_matching(s.drop_last(), t) + if s.last() == t {
            1int
        } else {
            0int
        }
    }
}

/// Counts the entries of `s` that equal `t`.
pub fn count_matching_cells(s: &Vec<CellState>, t: CellState) -> (n: usize)
    ensures
        n == count_matching(s@, t),
{
    let mut n: usize = 0;
    let mut i: usize = 0;
    while i < s.len()
        invariant
            0 <= i <= s@.len(),
            n == count_matching(s@.subrange(0, i as int), t),
            n <= i,
        decreases s@.len() - i,
    {
        let ghost prefix = s@.subrange(0, i as int);
        proof {
            let next = s@.subrange(0, i + 1);
            assert(next.drop_last() =~= prefix);
        }
        if s[i] == t {
            n += 1;
        }
        i += 1;
    }
    proof {
        assert(s@.subrange(0, s@.len() as int) =~= s@);
    }
    n
}

/// The pure transition of one cell: its next state, given its current
/// state, the rule parameters, and the states of its in-bounds neighbors.
/// A state whose kind does not match the parameters is left unchanged.
pub open spec fn spec_step(state: CellState, p: RuleParams, neighbors: Seq<CellState>) -> CellState {
    match (state, p) {
        (CellState::Life(l), RuleParams::Life(lp)) => CellState::Life(
            spec_life_next(l, lp.rule, count_matching(neighbors, CellState::Life(Life::Alive))),
        ),
        (CellState::Cyclic(c), RuleParams::Cyclic(cp)) => {
            if cp.palette@.len() == 0 {
                state
            } else {
                let target = (c.value + 1) % (cp.palette@.len() as int);
                let count = count_matching(
                    neighbors,
                    CellState::Cyclic(Cyclic { value: target as usize }),
                );
                CellState::Cyclic(
                    Cyclic {
                        value: spec_cyclic_next(
                            c.value as int,
                            cp.palette@.len() as int,
                            cp.threshold as int,
                            count,
                        ) as usize,
                    },
                )
            }
        },
        (CellState::Brain(b), RuleParams::Brain(_)) => CellState::Brain(
            spec_brain_next(b, count_matching(neighbors, CellState::Brain(Brain::Alive))),
        ),
        _ => state,
    }
}

/// Computes the next state of one cell from its neighbors' states.
pub fn step_cell(state: CellState, p: &RuleParams, neighbors: &Vec<CellState>) -> (r: CellState)
    requires
        state_valid(state, *p),
    ensures
        r == spec_step(state, *p, neighbors@),
{
    match (state, p) {
        (CellState::Life(l), RuleParams::Life(lp)) => {
            let count = count_matching_cells(neighbors, CellState::Life(Life::Alive));
            CellState::Life(life_next(l, &lp.rule, count))
        },
        (CellState::Cyclic(c), RuleParams::Cyclic(cp)) => {
            let target = cyclic_target(c.value, cp.palette.len());
            let count = count_matching_cells(neighbors, CellState::Cyclic(Cyclic { value: target }));
            let value = if count >= cp.threshold as usize {
                target
            } else {
                c.value
            };
            CellState::Cyclic(Cyclic { value })
        },
        (CellState::Brain(b), RuleParams::Brain(_)) => {
            let count = count_matching_cells(neighbors, CellState::Brain(Brain::Alive));
            CellState::Brain(brain_next(b, count))
        },
        _ => state,
    }
}

/// Stepping a valid cell yields a valid cell.
pub proof fn lemma_step_valid(state: CellState, p: RuleParams, neighbors: Seq<CellState>)
    requires
        params_valid(p),
        state_valid(state, p),
    ensures
        state_valid(spec_step(state, p, neighbors), p),
{
    match (state, p) {
        (CellState::Cyclic(c), RuleParams::Cyclic(cp)) => {
            let count = count_matching(
                neighbors,
                CellState::Cyclic(
                    Cyclic { value: ((c.value + 1) % (cp.palette@.len() as int)) as usize },
                ),
            );
            lemma_cyclic_next_in_palette(
                c.value as int,
                cp.palette@.len() as int,
                cp.threshold as int,
                count,
            );
        },
        _ => {},
    }
}

/// The scratch-buffer filler state of each kind: dead for the two
/// life-like kinds, the first palette index for the cyclic kind.
pub open spec fn spec_default(p: RuleParams) -> CellState {
    match p {
        RuleParams::Life(_) => CellState::Life(Life::Dead),
        RuleParams::Cyclic(_) => CellState::Cyclic(Cyclic { value: 0 }),
        RuleParams::Brain(_) => CellState::Brain(Brain::Dead),
    }
}

/// Builds the scratch-buffer filler state for the given parameters.
pub fn default_state(p: &RuleParams) -> (r: CellState)
    requires
        params_valid(*p),
    ensures
        r == spec_default(*p),
        state_valid(r, *p),
{
    match p {
        RuleParams::Life(_) => CellState::Life(Life::Dead),
        RuleParams::Cyclic(_) => CellState::Cyclic(Cyclic { value: 0 }),
        RuleParams::Brain(_) => CellState::Brain(Brain::Dead),
    }
}

/// How many distinct draws initial sampling distinguishes: one per
/// percentage point for the life-like kinds, one per palette entry for
/// the cyclic kind.
pub open spec fn draw_bound(p: RuleParams) -> int {
    match p {
        RuleParams::Life(_) => 100,
        RuleParams::Cyclic(cp) => cp.palette@.len() as int,
        RuleParams::Brain(_) => 100,
    }
}

/// The initial state of a cell, as a function of a uniform draw in
/// `[0, draw_bound)`: alive when the draw falls under the configured
/// percentage, or the drawn palette index.
pub open spec fn spec_sample(p: RuleParams, draw: u32) -> CellState {
    match p {
        RuleParams::Life(lp) => CellState::Life(
            if (draw as int) < lp.alive_percent as int {
                Life::Alive
            } else {
                Life::Dead
            },
        ),
        RuleParams::Cyclic(_) => CellState::Cyclic(Cyclic { value: draw as usize }),
        RuleParams::Brain(bp) => CellState::Brain(
            if (draw as int) < bp.alive_percent as int {
                Brain::Alive
            } else {
                Brain::Dead
            },
        ),
    }
}

/// Whether a cell state is the initial sample of some draw below the
/// sampling bound — all that can be said of a freshly drawn cell.
pub open spec fn is_sample_of(state: CellState, p: RuleParams) -> bool {
    exists|d: u32| 0 <= d < draw_bound(p) && state == spec_sample(p, d)
}

/// Turns a uniform draw into an initial cell state.
pub fn sample_from_draw(p: &RuleParams, draw: u32) -> (r: CellState)
    requires
        params_valid(*p),
        draw < draw_bound(*p),
    ensures
        r == spec_sample(*p, draw),
        state_valid(r, *p),
{
    match p {
        RuleParams::Life(lp) => CellState::Life(
            if draw < lp.alive_percent as u32 {
                Life::Alive
            } else {
                Life::Dead
            },
        ),
        RuleParams::Cyclic(_) => CellState::Cyclic(Cyclic { value: draw as usize }),
        RuleParams::Brain(bp) => CellState::Brain(
            if draw < bp.alive_percent as u32 {
                Brain::Alive
            } else {
                Brain::Dead
            },
        ),
    }
}

/// The display color of a cell state: black/white for the binary kind,
/// black/blue/white for the excitable kind, the palette entry for the
/// cyclic kind.
pub open spec fn spec_color(s: CellState, p: RuleParams) -> Rgba {
    match s {
        CellState::Life(l) => if l is Alive {
            spec_black()
        } else {
            spec_white()
        },
        CellState::Brain(b) => match b {
            Brain::Dead => spec_black(),
            Brain::Dying => spec_blue(),
            Brain::Alive => spec_white(),
        },
        CellState::Cyclic(c) => match p {
            RuleParams::Cyclic(cp) => {
                if c.value < cp.palette@.len() {
                    cp.palette@[c.value as int]
                } else {
                    spec_black()
                }
            },
            _ => spec_black(),
        },
    }
}

/// Computes the display color of a cell state.
pub fn color_of(s: CellState, p: &RuleParams) -> (c: Rgba)
    ensures
        c == spec_color(s, *p),
{
    match s {
        CellState::Life(l) => match l {
            Life::Alive => rgb(0, 0, 0),
            Life::Dead => rgb(255, 255, 255),
        },
        CellState::Brain(b) => match b {
            Brain::Dead => rgb(0, 0, 0),
            Brain::Dying => rgb(0, 119, 242),
            Brain::Alive => rgb(255, 255, 255),
        },
        CellState::Cyclic(c) => match p {
            RuleParams::Cyclic(cp) => {
                if c.value < cp.palette.len() {
                    cp.palette[c.value]
                } else {
                    rgb(0, 0, 0)
                }
            },
            _ => rgb(0, 0, 0),
        },
    }
}

} // verus!
