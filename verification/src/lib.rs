//! A parallel cellular-automaton stepping engine.
//!
//! A fixed two-dimensional grid of cells is advanced generation by
//! generation.  Each generation, the flat cell range is split into
//! contiguous chunks; every chunk is stepped independently against a
//! read-only snapshot of the current grid, and the results are collected
//! into a scratch buffer that is swapped in once every cell has arrived.

pub mod args;

pub mod brain;

pub mod cell;

pub mod chunks;

pub mod color;

pub mod cyclic;

pub mod engine;

pub mod grid;

pub mod life;

pub mod rand;

pub mod timer;
