//! Plain configuration bundles, one per automaton kind, and their
//! mapping to rule parameters.
//!
//! A command-line front end fills these in, enforcing the documented
//! ranges, and hands them over; `rule_params_for` turns them into the
//! engine's rule parameters.

use vstd::prelude::*;

verus! {

use crate::brain::BrainParams;
use crate::cell::{RuleParams, params_valid};
use crate::color::{Palette, palette_colors, spec_palette};
use crate::cyclic::CyclicParams;
use crate::life::{LifeParams, LifeRule};

/// A percentage of cells to start alive.
#[derive(Clone, Copy, Debug, PartialEq, Eq, Structural)]
pub struct PercentArg {
    pub percentage: u8,
}

/// Configuration of the binary automaton: a parsed rule and the starting
/// percentage.
#[derive(Clone, Copy, Debug, PartialEq, Eq, Structural)]
pub struct LifeArgs {
    pub rule: LifeRule,
    pub percent_arg: PercentArg,
}

/// Configuration of the cyclic automaton: the advance threshold and a
/// palette choice.
#[derive(Clone, Copy, Debug, PartialEq, Eq, Structural)]
pub struct CyclicArgs {
    pub threshold: u8,
    pub palette: Palette,
}

/// Which automaton to run, with its configuration.
#[derive(Clone, Copy, Debug, PartialEq, Eq, Structural)]
pub enum CellType {
    Life(LifeArgs),
    Cyclic(CyclicArgs),
    Brain(PercentArg),
}

/// Whether a configuration respects the documented ranges: percentages
/// at most 100, rule masks over counts 0 through 8, a threshold between
/// 1 and 8.
pub open spec fn cell_type_ok(cell: CellType) -> bool {
    match cell {
        CellType::Life(args) => args.percent_arg.percentage <= 100 && args.rule.birth < 512
            && args.rule.survive < 512,
        CellType::Cyclic(args) => 1 <= args.threshold <= 8,
        CellType::Brain(args) => args.percentage <= 100,
    }
}

/// Builds the engine's rule parameters from a configuration, resolving
/// the palette choice into its colors.
pub fn rule_params_for(cell: &CellType) -> (p: RuleParams)
    requires
        cell_type_ok(*cell),
    ensures
        params_valid(p),
        *cell matches CellType::Life(args) ==> p == RuleParams::Life(
            LifeParams { alive_percent: args.percent_arg.percentage, rule: args.rule },
        ),
        *cell matches CellType::Brain(args) ==> p == RuleParams::Brain(
            BrainParams { alive_percent: args.percentage },
        ),
        *cell matches CellType::Cyclic(args) ==> p matches RuleParams::Cyclic(cp)
            && cp.threshold == args.threshold && cp.palette@ == spec_palette(args.palette),
    {
    match cell {
        CellType::Life(args) => RuleParams::Life(
            LifeParams { alive_percent: args.percent_arg.percentage, rule: args.rule },
        ),
        CellType::Cyclic(args) => RuleParams::Cyclic(
            CyclicParams { palette: palette_colors(args.palette), threshold: args.threshold },
        ),
        CellType::Brain(args) => RuleParams::Brain(BrainParams { alive_percent: args.percentage }),
    }
}

} // verus!
