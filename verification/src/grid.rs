//! Bidirectional mapping between a linear cell index and a (column, row)
//! pair, and enumeration of the up-to-eight in-bounds neighbors of a cell.
//!
//! The grid is stored column-major: cell `(col, row)` lives at linear index
//! `col * rows + row`.  Neighbor enumeration clips at the grid edges; there
//! is no wraparound.

use vstd::prelude::*;

verus! {

use vstd::arithmetic::div_mod::{
    lemma_div_pos_is_pos,
    lemma_fundamental_div_mod,
    lemma_fundamental_div_mod_converse,
    lemma_mod_division_less_than_divisor,
};
use vstd::arithmetic::mul::lemma_mul_inequality;

/// The fixed dimensions of the grid, in cells.
#[derive(Clone, Copy, Debug)]
pub struct GridSize {
    pub cols: usize,
    pub rows: usize,
}

impl GridSize {
    /// A usable grid: at least one cell in each direction, and a total
    /// cell count that fits in `usize`.
    pub open spec fn valid(self) -> bool {
        &&& self.cols >= 1
        &&& self.rows >= 1
        &&& self.cols * self.rows <= usize::MAX
    }

    pub open spec fn total(self) -> int {
        self.cols * self.rows
    }

    /// The total cell count, computed without overflow.
    pub fn total_cells(self) -> (t: usize)
        requires
            self.valid(),
        ensures
            t == self.total(),
    {
        self.cols * self.rows
    }
}

/// Whether `(col, row)` lies inside the grid.
pub open spec fn in_grid(g: GridSize, col: int, row: int) -> bool {
    &&& 0 <= col < g.cols as int
    &&& 0 <= row < g.rows as int
}

pub open spec fn spec_col(g: GridSize, index: int) -> int {
    index / (g.rows as int)
}

pub open spec fn spec_row(g: GridSize, index: int) -> int {
    index % (g.rows as int)
}

/// Maps a linear index to its (column, row) pair.
pub fn linear_to_grid(g: GridSize, index: usize) -> (cr: (usize, usize))
    requires
        g.valid(),
    ensures
        cr.0 == spec_col(g, index as int),
        cr.1 == spec_row(g, index as int),
{
    (index / g.rows, index % g.rows)
}

/// Maps a (column, row) pair to its linear index.
pub fn grid_to_linear(g: GridSize, col: usize, row: usize) -> (index: usize)
    requires
        g.valid(),
        in_grid(g, col as int, row as int),
    ensures
        index == col * g.rows + row,
        index < g.total(),
{
    proof {
        lemma_cell_index_bound(g.cols as int, g.rows as int, col as int, row as int);
    }
    col * g.rows + row
}

/// The linear index of any in-grid cell lies in `[0, cols * rows)`.
proof fn lemma_cell_index_bound(cols: int, rows: int, col: int, row: int)
    requires
        0 <= col < cols,
        0 <= row < rows,
    ensures
        0 <= col * rows + row < cols * rows,
{
    assert(0 <= col * rows + row < cols * rows) by (nonlinear_arith)
        requires
            0 <= col < cols,
            0 <= row < rows,
    ;
}

/// A valid index names an in-grid cell, and the two mappings invert each
/// other.
pub proof fn lemma_index_in_grid(g: GridSize, index: int)
    requires
        g.valid(),
        0 <= index < g.total(),
    ensures
        in_grid(g, spec_col(g, index), spec_row(g, index)),
        spec_col(g, index) * g.rows + spec_row(g, index) == index,
{
    let rows = g.rows as int;
    let cols = g.cols as int;
    lemma_fundamental_div_mod(index, rows);
    lemma_mod_division_less_than_divisor(index, rows);
    lemma_div_pos_is_pos(index, rows);
    assert(rows * (index / rows) == (index / rows) * rows) by (nonlinear_arith);
    if index / rows >= cols {
        lemma_mul_inequality(cols, index / rows, rows);
        assert(false);
    }
}

/// The two mappings are exact inverses: for any in-grid cell, the linear
/// index maps back to the same column and row.
pub proof fn lemma_grid_roundtrip(g: GridSize, col: int, row: int)
    requires
        g.valid(),
        in_grid(g, col, row),
    ensures
        spec_col(g, col * g.rows + row) == col,
        spec_row(g, col * g.rows + row) == row,
{
    let rows = g.rows as int;
    lemma_fundamental_div_mod_converse(col * rows + row, rows, col, row);
}

/// The linear index of the cell displaced by `(dc, dr)`, as a sequence:
/// a singleton when the displaced cell is in bounds, empty otherwise.
pub open spec fn neighbor_cell(g: GridSize, col: int, row: int, dc: int, dr: int) -> Seq<int> {
    if in_grid(g, col + dc, row + dr) {
        seq![(col + dc) * (g.rows as int) + (row + dr)]
    } else {
        Seq::empty()
    }
}

/// The linear indices of the in-bounds neighbors of `(col, row)`, in a
/// fixed order: the row above left to right, then the two sideways
/// neighbors, then the row below left to right.
pub open spec fn neighbors_at(g: GridSize, col: int, row: int) -> Seq<int> {
    neighbor_cell(g, col, row, -1, -1) + neighbor_cell(g, col, row, 0, -1) + neighbor_cell(
        g,
        col,
        row,
        1,
        -1,
    ) + neighbor_cell(g, col, row, -1, 0) + neighbor_cell(g, col, row, 1, 0) + neighbor_cell(
        g,
        col,
        row,
        -1,
        1,
    ) + neighbor_cell(g, col, row, 0, 1) + neighbor_cell(g, col, row, 1, 1)
}

/// The linear indices of the in-bounds neighbors of the cell at `index`.
pub open spec fn neighbors_of(g: GridSize, index: int) -> Seq<int> {
    neighbors_at(g, spec_col(g, index), spec_row(g, index))
}

pub open spec fn indicator(b: bool) -> int {
    if b {
        1
    } else {
        0
    }
}

/// The number of in-bounds 8-connected neighbors of `(col, row)`.
pub open spec fn in_bounds_neighbor_count(g: GridSize, col: int, row: int) -> int {
    indicator(in_grid(g, col - 1, row - 1)) + indicator(in_grid(g, col, row - 1)) + indicator(
        in_grid(g, col + 1, row - 1),
    ) + indicator(in_grid(g, col - 1, row)) + indicator(in_grid(g, col + 1, row)) + indicator(
        in_grid(g, col - 1, row + 1),
    ) + indicator(in_grid(g, col, row + 1)) + indicator(in_grid(g, col + 1, row + 1))
}

/// The enumerated neighbor sequence has exactly one entry per in-bounds
/// 8-connected neighbor.
pub proof fn lemma_neighbors_len(g: GridSize, col: int, row: int)
    ensures
        neighbors_at(g, col, row).len() == in_bounds_neighbor_count(g, col, row),
{
}

pub open spec fn is_corner(g: GridSize, col: int, row: int) -> bool {
    &&& (col == 0 || col == g.cols as int - 1)
    &&& (row == 0 || row == g.rows as int - 1)
}

pub open spec fn is_edge(g: GridSize, col: int, row: int) -> bool {
    &&& (col == 0 || col == g.cols as int - 1 || row == 0 || row == g.rows as int - 1)
    &&& !is_corner(g, col, row)
}

/// On a grid at least two cells wide and tall, corner cells have exactly
/// 3 in-bounds neighbors, non-corner edge cells exactly 5, and interior
/// cells exactly 8.
pub proof fn lemma_neighbor_counts(g: GridSize, col: int, row: int)
    requires
        g.cols >= 2,
        g.rows >= 2,
        in_grid(g, col, row),
    ensures
        is_corner(g, col, row) ==> neighbors_at(g, col, row).len() == 3,
        is_edge(g, col, row) ==> neighbors_at(g, col, row).len() == 5,
        !is_corner(g, col, row) && !is_edge(g, col, row) ==> neighbors_at(g, col, row).len() == 8,
{
    lemma_neighbors_len(g, col, row);
}

/// Every enumerated neighbor index is a valid cell index, and differs
/// from the cell's own index.
pub proof fn lemma_neighbors_in_range(g: GridSize, index: int)
    requires
        g.valid(),
        0 <= index < g.total(),
    ensures
        forall|i: int|
            0 <= i < neighbors_of(g, index).len() ==> 0 <= #[trigger] neighbors_of(g, index)[i]
                < g.total() && neighbors_of(g, index)[i] != index,
{
    let col = spec_col(g, index);
    let row = spec_row(g, index);
    lemma_index_in_grid(g, index);
    assert forall|i: int| 0 <= i < neighbors_of(g, index).len() implies 0 <= #[trigger] neighbors_of(
        g,
        index,
    )[i] < g.total() && neighbors_of(g, index)[i] != index by {
        let s = neighbors_of(g, index);
        lemma_neighbor_entry_ok(g, col, row, -1, -1);
        lemma_neighbor_entry_ok(g, col, row, 0, -1);
        lemma_neighbor_entry_ok(g, col, row, 1, -1);
        lemma_neighbor_entry_ok(g, col, row, -1, 0);
        lemma_neighbor_entry_ok(g, col, row, 1, 0);
        lemma_neighbor_entry_ok(g, col, row, -1, 1);
        lemma_neighbor_entry_ok(g, col, row, 0, 1);
        lemma_neighbor_entry_ok(g, col, row, 1, 1);
    }
}

/// A single in-bounds neighbor entry is a valid index of a different cell.
proof fn lemma_neighbor_entry_ok(g: GridSize, col: int, row: int, dc: int, dr: int)
    requires
        g.valid(),
        in_grid(g, col, row),
        -1 <= dc <= 1,
        -1 <= dr <= 1,
        !(dc == 0 && dr == 0),
    ensures
        in_grid(g, col + dc, row + dr) ==> 0 <= (col + dc) * (g.rows as int) + (row + dr)
            < g.total() && (col + dc) * (g.rows as int) + (row + dr) != col * (g.rows as int) + row,
{
    let rows = g.rows as int;
    let cols = g.cols as int;
    if in_grid(g, col + dc, row + dr) {
        lemma_cell_index_bound(cols, rows, col + dc, row + dr);
        assert((col + 1) * rows == col * rows + rows) by (nonlinear_arith);
        assert((col - 1) * rows == col * rows - rows) by (nonlinear_arith);
    }
}

/// Enumerates the linear indices of the in-bounds neighbors of the cell
/// at `index`, in the fixed order of `neighbors_of`.
pub fn neighbor_indices(g: GridSize, index: usize) -> (v: Vec<usize>)
    requires
        g.valid(),
        index < g.total(),
    ensures
        v@.len() == neighbors_of(g, index as int).len(),
        forall|i: int|
            0 <= i < v@.len() ==> v@[i] as int == neighbors_of(g, index as int)[i] && v@[i]
                < g.total(),
{
    proof {
        lemma_index_in_grid(g, index as int);
    }
    let (col, row) = linear_to_grid(g, index);
    proof {
        let c = col as int;
        let r = row as int;
        let rs = g.rows as int;
        let cs = g.cols as int;
        if in_grid(g, c - 1, r - 1) {
            lemma_cell_index_bound(cs, rs, c - 1, r - 1);
        }
        if in_grid(g, c, r - 1) {
            lemma_cell_index_bound(cs, rs, c, r - 1);
        }
        if in_grid(g, c + 1, r - 1) {
            lemma_cell_index_bound(cs, rs, c + 1, r - 1);
        }
        if in_grid(g, c - 1, r) {
            lemma_cell_index_bound(cs, rs, c - 1, r);
        }
        if in_grid(g, c + 1, r) {
            lemma_cell_index_bound(cs, rs, c + 1, r);
        }
        if in_grid(g, c - 1, r + 1) {
            lemma_cell_index_bound(cs, rs, c - 1, r + 1);
        }
        if in_grid(g, c, r + 1) {
            lemma_cell_index_bound(cs, rs, c, r + 1);
        }
        if in_grid(g, c + 1, r + 1) {
            lemma_cell_index_bound(cs, rs, c + 1, r + 1);
        }
        assert((c - 1) * rs == c * rs - rs) by (nonlinear_arith);
        assert((c + 1) * rs == c * rs + rs) by (nonlinear_arith);
        lemma_cell_index_bound(cs, rs, c, r);
    }
    let rows = g.rows;
    let mut v: Vec<usize> = Vec::new();
    if col > 0 && row > 0 {
        v.push((col - 1) * rows + (row - 1));
    }
    if row > 0 {
        v.push(col * rows + (row - 1));
    }
    if col + 1 < g.cols && row > 0 {
        v.push((col + 1) * rows + (row - 1));
    }
    if col > 0 {
        v.push((col - 1) * rows + row);
    }
    if col + 1 < g.cols {
        v.push((col + 1) * rows + row);
    }
    if col > 0 && row + 1 < g.rows {
        v.push((col - 1) * rows + (row + 1));
    }
    if row + 1 < g.rows {
        v.push(col * rows + (row + 1));
    }
    if col + 1 < g.cols && row + 1 < g.rows {
        v.push((col + 1) * rows + (row + 1));
    }
    v
}

} // verus!
