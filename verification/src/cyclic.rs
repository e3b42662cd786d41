//! The cyclic rotation automaton.
//!
//! Each cell holds an index into a fixed color palette.  A cell advances
//! to the next palette index (wrapping around) as soon as enough of its
//! neighbors already hold that next index; otherwise it keeps its value.

use vstd::prelude::*;

verus! {

use vstd::arithmetic::div_mod::lemma_mod_division_less_than_divisor;
use crate::color::Rgba;

/// The state of one cell of the cyclic automaton: an index into the
/// palette.
#[derive(Clone, Copy, Debug, PartialEq, Eq, Structural)]
pub struct Cyclic {
    pub value: usize,
}

/// Parameters of the cyclic automaton: the ordered color palette and the
/// number of matching neighbors needed to advance.
#[derive(Clone, Debug)]
pub struct CyclicParams {
    pub palette: Vec<Rgba>,
    pub threshold: u8,
}

/// The palette index a cell at `value` tries to advance to.
pub open spec fn spec_cyclic_target(value: int, palette_len: int) -> int {
    (value + 1) % palette_len
}

/// The transition of the cyclic automaton, given the number of neighbors
/// that already hold the target index.
pub open spec fn spec_cyclic_next(value: int, palette_len: int, threshold: int, count: int) -> int {
    if count >= threshold {
        spec_cyclic_target(value, palette_len)
    } else {
        value
    }
}

/// Computes the palette index a cell at `value` tries to advance to.
pub fn cyclic_target(value: usize, palette_len: usize) -> (t: usize)
    requires
        palette_len >= 1,
        value < palette_len,
    ensures
        t == spec_cyclic_target(value as int, palette_len as int),
        t < palette_len,
{
    proof {
        lemma_mod_division_less_than_divisor(value + 1, palette_len as int);
    }
    (value + 1) % palette_len
}

/// The cyclic transition stays inside the palette.
pub proof fn lemma_cyclic_next_in_palette(value: int, palette_len: int, threshold: int, count: int)
    requires
        0 <= value < palette_len,
    ensures
        0 <= spec_cyclic_next(value, palette_len, threshold, count) < palette_len,
{
    lemma_mod_division_less_than_divisor(value + 1, palette_len);
}

/// With a threshold of 1, a cell advances to `(value + 1) mod P` whenever
/// at least one neighbor already holds that target index, and keeps its
/// value otherwise.
pub proof fn lemma_cyclic_threshold_one(value: int, palette_len: int, count: int)
    requires
        palette_len >= 1,
    ensures
        count >= 1 ==> spec_cyclic_next(value, palette_len, 1, count) == (value + 1) % palette_len,
        count == 0 ==> spec_cyclic_next(value, palette_len, 1, count) == value,
{
}

} // verus!
