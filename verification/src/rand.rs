//! The engine's one source of randomness: a uniform draw below a bound,
//! taken from the process-global pseudo-random generator that the host
//! application seeds once per run.

use vstd::prelude::*;

verus! {

/// Relies on macroquad::rand::gen_range (quad-rand's generator): with a
/// lower bound of 0 it scales a 32-bit draw into `[0, bound)`, so the
/// result is always below `bound`.  Nothing else can be promised of a
/// random value.
#[verifier::external_body]
pub fn random_below(bound: u32) -> (r: u32)
    requires
        bound >= 1,
    ensures
        r < bound,
{
    macroquad::rand::gen_range(0u32, bound)
}

} // verus!
