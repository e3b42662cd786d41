//! The generation engine: the two grid buffers, the chunk table, and the
//! per-generation protocol that advances every cell exactly once.
//!
//! A generation runs through four phases: dispatching (each chunk is
//! handed out, round-robin over the workers), collecting (every computed
//! `(index, state)` pair is written into the scratch buffer behind an
//! explicit counted barrier), swapping (current and scratch trade places
//! only once every cell has arrived), and back to idle.  The
//! chunk computation itself is a pure function of the current buffer, so
//! a host may run chunks on any number of threads — or inline, as
//! [`Automata::next`] does — without changing the outcome.

use vstd::prelude::*;

verus! {

use crate::cell::{
    CellState,
    RuleParams,
    params_valid,
    state_valid,
    check_params,
    check_state,
    spec_step,
    step_cell,
    lemma_step_valid,
    spec_default,
    default_state,
    draw_bound,
    is_sample_of,
    spec_sample,
    sample_from_draw,
    spec_color,
    color_of,
};
use crate::chunks::{Chunk, chunks_partition, make_chunks, spec_chunk_size};
use crate::color::Rgba;
use crate::grid::{
    GridSize,
    neighbors_of,
    neighbor_indices,
    in_bounds_neighbor_count,
    lemma_neighbors_len,
    spec_col,
    spec_row,
};
use crate::rand::random_below;

/// A configuration fault, detected at construction before any work
/// starts; the engine is never partially constructed.
#[derive(Clone, Copy, Debug, PartialEq, Eq, Structural)]
pub enum ConfigError {
    /// The grid's cell count overflows the machine word.
    GridTooLarge,
    /// A worker thread count of zero.
    ZeroThreads,
    /// A chunk count of zero.
    ZeroChunks,
    /// More chunks than cells: some chunk would be empty.
    TooManyChunks,
    /// Rule parameters outside their documented ranges.
    InvalidParams,
    /// A supplied initial grid of the wrong length, or holding a cell
    /// that the rule parameters do not admit.
    InvalidCells,
}

/// A broken per-generation protocol invariant.  In the verified
/// sequential driver these can never arise; an external driver that
/// feeds results over channels sees them when a worker misbehaves.
#[derive(Clone, Copy, Debug, PartialEq, Eq, Structural)]
pub enum ProtocolError {
    /// The call does not fit the engine's current phase.
    WrongPhase,
    /// A result for an index outside the grid.
    IndexOutOfRange,
    /// A second result for the same cell within one generation.
    DuplicateResult,
    /// A result state that the rule parameters do not admit.
    InvalidState,
    /// The barrier is not met: some cell has no result yet.
    Incomplete,
}

/// Where the engine stands between calls: idle between generations, or
/// collecting results for the generation in flight.
#[derive(Clone, Copy, Debug, PartialEq, Eq, Structural)]
pub enum Phase {
    Idle,
    Collecting,
}

/// Concurrency configuration: how many persistent workers, and how many
/// chunks the grid is split into each generation.
#[derive(Clone, Copy, Debug, PartialEq, Eq, Structural)]
pub struct AutomataParams {
    pub threads: usize,
    pub chunks: usize,
}

/// The states of the in-bounds neighbors of the cell at `index`, in
/// enumeration order.
pub open spec fn neighbor_states(cells: Seq<CellState>, g: GridSize, index: int) -> Seq<CellState> {
    neighbors_of(g, index).map(|_i: int, j: int| cells[j])
}

/// One whole generation, as a pure function: every cell stepped against
/// the same snapshot.  This depends only on the grid contents, the grid
/// dimensions and the rule — not on chunking or threading.
pub open spec fn next_generation(cells: Seq<CellState>, g: GridSize, p: RuleParams) -> Seq<
    CellState,
> {
    Seq::new(cells.len(), |i: int| spec_step(cells[i], p, neighbor_states(cells, g, i)))
}

/// A generation counter that sticks at its ceiling instead of wrapping.
pub open spec fn inc_generation(g: int) -> int {
    if g == u64::MAX {
        g
    } else {
        g + 1
    }
}

/// Whether a configuration is accepted by construction.
pub open spec fn config_ok(grid: GridSize, params: AutomataParams, cell_params: RuleParams) -> bool {
    &&& grid.cols * grid.rows <= usize::MAX
    &&& params.threads >= 1
    &&& params.chunks >= 1
    &&& params.chunks <= grid.cols * grid.rows
    &&& params_valid(cell_params)
}

/// Which configuration error a rejected configuration reports.
pub open spec fn spec_config_error(
    grid: GridSize,
    params: AutomataParams,
    cell_params: RuleParams,
) -> ConfigError {
    if grid.cols * grid.rows > usize::MAX {
        ConfigError::GridTooLarge
    } else if params.threads == 0 {
        ConfigError::ZeroThreads
    } else if params.chunks == 0 {
        ConfigError::ZeroChunks
    } else if params.chunks > grid.cols * grid.rows {
        ConfigError::TooManyChunks
    } else {
        ConfigError::InvalidParams
    }
}

/// What construction establishes, visible to every caller: dimensions,
/// parameters and worker count as configured; an idle engine at
/// generation zero; one admissible cell per grid index; a scratch buffer
/// of the same length holding the per-kind filler state; and a chunk
/// table of exactly the configured count that partitions the index range
/// with the documented boundaries — `total / chunks` cells per chunk,
/// the remainder absorbed by the last.
pub open spec fn freshly_built(
    engine: Automata,
    grid: GridSize,
    params: AutomataParams,
    cell_params: RuleParams,
) -> bool {
    &&& engine.spec_grid() == grid
    &&& engine.spec_params() == cell_params
    &&& engine.spec_threads() == params.threads
    &&& engine.spec_phase() is Idle
    &&& engine.spec_generation() == 0
    &&& engine.cells().len() == grid.total()
    &&& engine.scratch().len() == grid.total()
    &&& forall|i: int|
        0 <= i < grid.total() ==> #[trigger] engine.scratch()[i] == spec_default(cell_params)
    &&& forall|i: int|
        0 <= i < grid.total() ==> state_valid(#[trigger] engine.cells()[i], cell_params)
    &&& engine.spec_chunks().len() == params.chunks
    &&& chunks_partition(engine.spec_chunks(), grid.total())
    &&& forall|i: int|
        0 <= i < params.chunks ==> (#[trigger] engine.spec_chunks()[i]).start == i
            * spec_chunk_size(grid.total(), params.chunks as int)
    &&& forall|i: int|
        0 <= i < params.chunks - 1 ==> (#[trigger] engine.spec_chunks()[i]).end == (i + 1)
            * spec_chunk_size(grid.total(), params.chunks as int)
    &&& engine.spec_chunks()[params.chunks - 1].end == grid.total()
}

/// The parallel cellular-automaton engine: a fixed grid, immutable rule
/// parameters, the current and scratch buffers, and the chunk table.
#[derive(Debug)]
pub struct Automata {
    grid: GridSize,
    params: RuleParams,
    threads: usize,
    chunks: Vec<Chunk>,
    current: Vec<CellState>,
    next: Vec<CellState>,
    received: Vec<bool>,
    phase: Phase,
    generation: u64,
}

impl Automata {
    /// The grid dimensions.
    pub closed spec fn spec_grid(self) -> GridSize {
        self.grid
    }

    /// The rule parameters, fixed at construction.
    pub closed spec fn spec_params(self) -> RuleParams {
        self.params
    }

    /// The configured worker count.
    pub closed spec fn spec_threads(self) -> int {
        self.threads as int
    }

    /// The chunk table, fixed at construction.
    pub closed spec fn spec_chunks(self) -> Seq<Chunk> {
        self.chunks@
    }

    /// The current generation's cells.
    pub closed spec fn cells(self) -> Seq<CellState> {
        self.current@
    }

    /// The scratch buffer that accumulates the next generation.
    pub closed spec fn scratch(self) -> Seq<CellState> {
        self.next@
    }

    /// Which cells have already received a result this generation.
    pub closed spec fn received(self) -> Seq<bool> {
        self.received@
    }

    pub closed spec fn spec_phase(self) -> Phase {
        self.phase
    }

    /// How many generations have completed since construction.
    pub closed spec fn spec_generation(self) -> int {
        self.generation as int
    }

    /// The engine's invariant: a valid grid and parameters, at least one
    /// worker, buffers of exactly one cell per grid index, a chunk table
    /// that partitions the index range, and only admissible cell states
    /// in either buffer.
    pub closed spec fn wf(self) -> bool {
        &&& self.grid.valid()
        &&& params_valid(self.params)
        &&& self.threads >= 1
        &&& self.current@.len() == self.grid.total()
        &&& self.next@.len() == self.grid.total()
        &&& self.received@.len() == self.grid.total()
        &&& chunks_partition(self.chunks@, self.grid.total())
        &&& self.chunks@.len() <= self.grid.total()
        &&& forall|i: int|
            0 <= i < self.current@.len() ==> state_valid(#[trigger] self.current@[i], self.params)
        &&& forall|i: int|
            0 <= i < self.next@.len() ==> state_valid(#[trigger] self.next@[i], self.params)
    }

    /// Starts an engine with a randomly sampled initial grid.  Every
    /// configuration fault is reported before any cell exists; on
    /// success the engine is idle at generation zero.
    pub fn new(grid: GridSize, params: AutomataParams, cell_params: RuleParams) -> (r: Result<
        Automata,
        ConfigError,
    >)
        ensures
            r is Ok <==> config_ok(grid, params, cell_params),
            r matches Err(e) ==> e == spec_config_error(grid, params, cell_params),
            r matches Ok(engine) ==> {
                &&& engine.wf()
                &&& freshly_built(engine, grid, params, cell_params)
                &&& forall|i: int|
                    0 <= i < grid.total() ==> is_sample_of(
                        #[trigger] engine.cells()[i],
                        cell_params,
                    )
            },
    {
        let total = match grid.cols.checked_mul(grid.rows) {
            Some(t) => t,
            None => {
                return Err(ConfigError::GridTooLarge);
            },
        };
        if params.threads == 0 {
            return Err(ConfigError::ZeroThreads);
        }
        if params.chunks == 0 {
            return Err(ConfigError::ZeroChunks);
        }
        if params.chunks > total {
            return Err(ConfigError::TooManyChunks);
        }
        if !check_params(&cell_params) {
            return Err(ConfigError::InvalidParams);
        }
        let bound = sample_bound(&cell_params);
        let mut current: Vec<CellState> = Vec::new();
        let mut i: usize = 0;
        while i < total
            invariant
                i <= total,
                params_valid(cell_params),
                bound == draw_bound(cell_params),
                1 <= bound,
                current@.len() == i,
                forall|j: int| 0 <= j < i ==> state_valid(#[trigger] current@[j], cell_params),
                forall|j: int| 0 <= j < i ==> is_sample_of(#[trigger] current@[j], cell_params),
            decreases total - i,
        {
            let draw = random_below(bound);
            let state = sample_from_draw(&cell_params, draw);
            proof {
                assert(0 <= draw < draw_bound(cell_params) && state == spec_sample(
                    cell_params,
                    draw,
                ));
                assert(is_sample_of(state, cell_params));
            }
            current.push(state);
            i += 1;
        }
        Ok(Self::assemble(grid, total, params, cell_params, current))
    }

    /// Starts an engine from a caller-supplied initial grid, for
    /// deterministic drivers and tests.  Succeeds exactly when the
    /// configuration is accepted and every supplied cell is admissible.
    pub fn from_cells(
        grid: GridSize,
        params: AutomataParams,
        cell_params: RuleParams,
        cells: Vec<CellState>,
    ) -> (r: Result<Automata, ConfigError>)
        ensures
            r is Ok <==> (config_ok(grid, params, cell_params) && cells@.len() == grid.total()
                && forall|i: int|
                0 <= i < cells@.len() ==> state_valid(#[trigger] cells@[i], cell_params)),
            r matches Err(e) ==> (if !config_ok(grid, params, cell_params) {
                e == spec_config_error(grid, params, cell_params)
            } else {
                e == ConfigError::InvalidCells
            }),
            r matches Ok(engine) ==> {
                &&& engine.wf()
                &&& freshly_built(engine, grid, params, cell_params)
                &&& engine.cells() == cells@
            },
    {
        let total = match grid.cols.checked_mul(grid.rows) {
            Some(t) => t,
            None => {
                return Err(ConfigError::GridTooLarge);
            },
        };
        if params.threads == 0 {
            return Err(ConfigError::ZeroThreads);
        }
        if params.chunks == 0 {
            return Err(ConfigError::ZeroChunks);
        }
        if params.chunks > total {
            return Err(ConfigError::TooManyChunks);
        }
        if !check_params(&cell_params) {
            return Err(ConfigError::InvalidParams);
        }
        if cells.len() != total {
            return Err(ConfigError::InvalidCells);
        }
        let mut i: usize = 0;
        while i < total
            invariant
                i <= total == cells@.len(),
                config_ok(grid, params, cell_params),
                total == grid.total(),
                forall|j: int| 0 <= j < i ==> state_valid(#[trigger] cells@[j], cell_params),
            decreases total - i,
        {
            if !check_state(cells[i], &cell_params) {
                return Err(ConfigError::InvalidCells);
            }
            i += 1;
        }
        Ok(Self::assemble(grid, total, params, cell_params, cells))
    }

    /// Builds the engine around an already-validated initial grid.
    fn assemble(
        grid: GridSize,
        total: usize,
        params: AutomataParams,
        cell_params: RuleParams,
        current: Vec<CellState>,
    ) -> (engine: Automata)
        requires
            grid.cols * grid.rows == total,
            params.threads >= 1,
            1 <= params.chunks <= total,
            params_valid(cell_params),
            current@.len() == total,
            forall|i: int| 0 <= i < current@.len() ==> state_valid(#[trigger] current@[i], cell_params),
        ensures
            engine.wf(),
            freshly_built(engine, grid, params, cell_params),
            engine.cells() == current@,
    {
        let mut next: Vec<CellState> = Vec::new();
        let mut received: Vec<bool> = Vec::new();
        let mut i: usize = 0;
        while i < total
            invariant
                i <= total,
                params_valid(cell_params),
                next@.len() == i,
                received@.len() == i,
                forall|j: int| 0 <= j < i ==> #[trigger] next@[j] == spec_default(cell_params),
            decreases total - i,
        {
            next.push(default_state(&cell_params));
            received.push(false);
            i += 1;
        }
        let chunks = make_chunks(total, params.chunks);
        Automata {
            grid,
            params: cell_params,
            threads: params.threads,
            chunks,
            current,
            next,
            received,
            phase: Phase::Idle,
            generation: 0,
        }
    }

    /// The grid dimensions.
    pub fn grid_size(&self) -> (g: GridSize)
        ensures
            g == self.spec_grid(),
    {
        self.grid
    }

    /// The grid's column count.
    pub fn cols(&self) -> (c: usize)
        ensures
            c == self.spec_grid().cols,
    {
        self.grid.cols
    }

    /// The grid's row count.
    pub fn rows(&self) -> (r: usize)
        ensures
            r == self.spec_grid().rows,
    {
        self.grid.rows
    }

    /// The total cell count.
    pub fn total_cells(&self) -> (t: usize)
        requires
            self.wf(),
        ensures
            t == self.spec_grid().total(),
    {
        self.grid.total_cells()
    }

    /// The configured worker count.
    pub fn thread_count(&self) -> (t: usize)
        ensures
            t == self.spec_threads(),
    {
        self.threads
    }

    /// How many chunks each generation is split into.
    pub fn chunk_count(&self) -> (c: usize)
        ensures
            c == self.spec_chunks().len(),
    {
        self.chunks.len()
    }

    /// The chunk at position `i` of the chunk table.
    pub fn chunk_at(&self, i: usize) -> (c: Chunk)
        requires
            i < self.spec_chunks().len(),
        ensures
            c == self.spec_chunks()[i as int],
    {
        self.chunks[i]
    }

    /// Which worker the chunk at position `i` is dispatched to: chunks go
    /// round-robin over the persistent workers.
    pub fn worker_of_chunk(&self, i: usize) -> (w: usize)
        requires
            self.wf(),
        ensures
            w == i as int % self.spec_threads(),
            w < self.spec_threads(),
    {
        i % self.threads
    }

    /// How many generations have completed since construction.
    pub fn generation(&self) -> (g: u64)
        ensures
            g == self.spec_generation(),
    {
        self.generation
    }

    /// Whether the engine is idle (between generations).
    pub fn is_idle(&self) -> (b: bool)
        ensures
            b == (self.spec_phase() is Idle),
    {
        match self.phase {
            Phase::Idle => true,
            Phase::Collecting => false,
        }
    }

    /// The rule parameters, for handing to chunk computations.
    pub fn rule_params(&self) -> (p: &RuleParams)
        ensures
            *p == self.spec_params(),
    {
        &self.params
    }

    /// A read-only view of the current generation, for handing a
    /// snapshot to workers.
    pub fn current_cells(&self) -> (cells: &Vec<CellState>)
        ensures
            cells@ == self.cells(),
    {
        &self.current
    }

    /// The cell at `index` of the current generation.
    pub fn cell_at(&self, index: usize) -> (s: CellState)
        requires
            self.wf(),
            index < self.spec_grid().total(),
        ensures
            s == self.cells()[index as int],
    {
        self.current[index]
    }

    /// The display color of the cell at `index` of the current
    /// generation.
    pub fn color_at(&self, index: usize) -> (c: Rgba)
        requires
            self.wf(),
            index < self.spec_grid().total(),
        ensures
            c == spec_color(self.cells()[index as int], self.spec_params()),
    {
        color_of(self.current[index], &self.params)
    }
}

/// The draw bound for initial sampling, as a machine integer.
fn sample_bound(p: &RuleParams) -> (b: u32)
    requires
        params_valid(*p),
    ensures
        b == draw_bound(*p),
        1 <= b,
{
    match p {
        RuleParams::Life(_) => 100,
        RuleParams::Cyclic(cp) => cp.palette.len() as u32,
        RuleParams::Brain(_) => 100,
    }
}

/// Gathers the states of the in-bounds neighbors of the cell at `index`.
pub fn collect_neighbors(g: GridSize, cells: &Vec<CellState>, index: usize) -> (v: Vec<CellState>)
    requires
        g.valid(),
        cells@.len() == g.total(),
        index < g.total(),
    ensures
        v@ == neighbor_states(cells@, g, index as int),
{
    let idxs = neighbor_indices(g, index);
    let mut v: Vec<CellState> = Vec::new();
    let mut i: usize = 0;
    while i < idxs.len()
        invariant
            g.valid(),
            cells@.len() == g.total(),
            index < g.total(),
            i <= idxs@.len(),
            v@.len() == i,
            idxs@.len() == neighbors_of(g, index as int).len(),
            forall|j: int|
                0 <= j < idxs@.len() ==> #[trigger] idxs@[j] as int == neighbors_of(
                    g,
                    index as int,
                )[j] && idxs@[j] < g.total(),
            forall|j: int|
                0 <= j < i ==> #[trigger] v@[j] == cells@[neighbors_of(g, index as int)[j]],
        decreases idxs@.len() - i,
    {
        let n = idxs[i];
        v.push(cells[n]);
        i += 1;
    }
    proof {
        assert(v@ =~= neighbor_states(cells@, g, index as int));
    }
    v
}

impl Automata {
    /// Computes one chunk of a generation against a read-only snapshot
    /// of the current grid: one `(index, next state)` pair per index of
    /// the chunk, in order.  This is the whole of a worker's job.
    pub fn calculate_chunk(
        g: GridSize,
        p: &RuleParams,
        cells: &Vec<CellState>,
        chunk: Chunk,
    ) -> (results: Vec<(usize, CellState)>)
        requires
            g.valid(),
            params_valid(*p),
            cells@.len() == g.total(),
            chunk.start <= chunk.end <= g.total(),
            forall|i: int| 0 <= i < cells@.len() ==> state_valid(#[trigger] cells@[i], *p),
        ensures
            results@.len() == chunk.len(),
            forall|j: int|
                0 <= j < results@.len() ==> (#[trigger] results@[j]).0 == chunk.start + j
                    && results@[j].1 == spec_step(
                    cells@[chunk.start + j],
                    *p,
                    neighbor_states(cells@, g, chunk.start + j),
                ),
    {
        let mut results: Vec<(usize, CellState)> = Vec::new();
        let mut index = chunk.start;
        while index < chunk.end
            invariant
                g.valid(),
                params_valid(*p),
                cells@.len() == g.total(),
                chunk.start <= index <= chunk.end <= g.total(),
                forall|i: int| 0 <= i < cells@.len() ==> state_valid(#[trigger] cells@[i], *p),
                results@.len() == index - chunk.start,
                forall|j: int|
                    0 <= j < results@.len() ==> (#[trigger] results@[j]).0 == chunk.start + j
                        && results@[j].1 == spec_step(
                        cells@[chunk.start + j],
                        *p,
                        neighbor_states(cells@, g, chunk.start + j),
                    ),
            decreases chunk.end - index,
        {
            let neighbors = collect_neighbors(g, cells, index);
            let state = step_cell(cells[index], p, &neighbors);
            results.push((index, state));
            index += 1;
        }
        results
    }

    /// Opens a generation: resets the barrier so that every cell awaits
    /// exactly one result.  Fails when a generation is already open.
    pub fn begin_generation(&mut self) -> (r: Result<(), ProtocolError>)
        requires
            old(self).wf(),
        ensures
            final(self).wf(),
            final(self).spec_grid() == old(self).spec_grid(),
            final(self).spec_params() == old(self).spec_params(),
            final(self).spec_threads() == old(self).spec_threads(),
            final(self).spec_chunks() == old(self).spec_chunks(),
            final(self).cells() == old(self).cells(),
            final(self).scratch() == old(self).scratch(),
            final(self).spec_generation() == old(self).spec_generation(),
            r is Ok <==> old(self).spec_phase() is Idle,
            r is Ok ==> final(self).spec_phase() is Collecting && final(self).received()
                == Seq::new(old(self).spec_grid().total() as nat, |i: int| false),
            r is Err ==> final(self).spec_phase() == old(self).spec_phase()
                && final(self).received() == old(self).received() && r == Err::<(), ProtocolError>(
                ProtocolError::WrongPhase,
            ),
    {
        match self.phase {
            Phase::Collecting => Err(ProtocolError::WrongPhase),
            Phase::Idle => {
                let total = self.grid.total_cells();
                let mut received: Vec<bool> = Vec::new();
                let mut i: usize = 0;
                while i < total
                    invariant
                        i <= total,
                        received@.len() == i,
                        forall|j: int| 0 <= j < i ==> !(#[trigger] received@[j]),
                    decreases total - i,
                {
                    received.push(false);
                    i += 1;
                }
                self.received = received;
                self.phase = Phase::Collecting;
                proof {
                    assert(self.received@ =~= Seq::new(
                        old(self).spec_grid().total() as nat,
                        |i: int| false,
                    ));
                }
                Ok(())
            },
        }
    }

    /// Records one worker result: writes `state` into the scratch buffer
    /// at `index` and marks that cell done.  Fails — leaving the engine
    /// unchanged — outside a generation, on an out-of-range index, on a
    /// second result for the same cell, or on an inadmissible state.
    pub fn record_result(&mut self, index: usize, state: CellState) -> (r: Result<
        (),
        ProtocolError,
    >)
        requires
            old(self).wf(),
        ensures
            final(self).wf(),
            final(self).spec_grid() == old(self).spec_grid(),
            final(self).spec_params() == old(self).spec_params(),
            final(self).spec_threads() == old(self).spec_threads(),
            final(self).spec_chunks() == old(self).spec_chunks(),
            final(self).cells() == old(self).cells(),
            final(self).spec_generation() == old(self).spec_generation(),
            final(self).spec_phase() == old(self).spec_phase(),
            r is Ok <==> (old(self).spec_phase() is Collecting && index
                < old(self).spec_grid().total() && !old(self).received()[index as int]
                && state_valid(state, old(self).spec_params())),
            r is Ok ==> final(self).scratch() == old(self).scratch().update(index as int, state)
                && final(self).received() == old(self).received().update(index as int, true),
            r matches Err(e) ==> {
                &&& final(self).scratch() == old(self).scratch()
                &&& final(self).received() == old(self).received()
                &&& e == (if !(old(self).spec_phase() is Collecting) {
                    ProtocolError::WrongPhase
                } else if index >= old(self).spec_grid().total() {
                    ProtocolError::IndexOutOfRange
                } else if old(self).received()[index as int] {
                    ProtocolError::DuplicateResult
                } else {
                    ProtocolError::InvalidState
                })
            },
    {
        match self.phase {
            Phase::Idle => Err(ProtocolError::WrongPhase),
            Phase::Collecting => {
                let total = self.grid.total_cells();
                if index >= total {
                    return Err(ProtocolError::IndexOutOfRange);
                }
                if self.received[index] {
                    return Err(ProtocolError::DuplicateResult);
                }
                if !check_state(state, &self.params) {
                    return Err(ProtocolError::InvalidState);
                }
                self.next[index] = state;
                self.received[index] = true;
                Ok(())
            },
        }
    }

    /// Closes a generation: once every cell has a result, swaps the
    /// scratch buffer in as the new current generation.  The swap is an
    /// ownership exchange, not a copy.  Fails — leaving the engine
    /// unchanged — outside a generation or while any cell still awaits
    /// its result.
    pub fn finish_generation(&mut self) -> (r: Result<(), ProtocolError>)
        requires
            old(self).wf(),
        ensures
            final(self).wf(),
            final(self).spec_grid() == old(self).spec_grid(),
            final(self).spec_params() == old(self).spec_params(),
            final(self).spec_threads() == old(self).spec_threads(),
            final(self).spec_chunks() == old(self).spec_chunks(),
            r is Ok <==> (old(self).spec_phase() is Collecting && forall|i: int|
                0 <= i < old(self).spec_grid().total() ==> old(self).received()[i]),
            r is Ok ==> {
                &&& final(self).cells() == old(self).scratch()
                &&& final(self).scratch() == old(self).cells()
                &&& final(self).spec_phase() is Idle
                &&& final(self).spec_generation() == inc_generation(old(self).spec_generation())
            },
            r matches Err(e) ==> {
                &&& final(self).cells() == old(self).cells()
                &&& final(self).scratch() == old(self).scratch()
                &&& final(self).received() == old(self).received()
                &&& final(self).spec_phase() == old(self).spec_phase()
                &&& final(self).spec_generation() == old(self).spec_generation()
                &&& e == (if !(old(self).spec_phase() is Collecting) {
                    ProtocolError::WrongPhase
                } else {
                    ProtocolError::Incomplete
                })
            },
    {
        match self.phase {
            Phase::Idle => Err(ProtocolError::WrongPhase),
            Phase::Collecting => {
                let total = self.grid.total_cells();
                let mut i: usize = 0;
                while i < total
                    invariant
                        *self == *old(self),
                        old(self).wf(),
                        old(self).spec_phase() is Collecting,
                        i <= total == self.received@.len(),
                        forall|j: int| 0 <= j < i ==> self.received@[j],
                    decreases total - i,
                {
                    if !self.received[i] {
                        proof {
                            assert(!old(self).received()[i as int]);
                        }
                        return Err(ProtocolError::Incomplete);
                    }
                    i += 1;
                }
                core::mem::swap(&mut self.current, &mut self.next);
                self.phase = Phase::Idle;
                if self.generation < u64::MAX {
                    self.generation = self.generation + 1;
                }
                Ok(())
            },
        }
    }

    /// Advances the grid one whole generation, inline: dispatches every
    /// chunk in order, collects every result behind the counted barrier,
    /// and swaps the buffers.  The outcome is the pure
    /// [`next_generation`] of the previous grid, whatever the chunk or
    /// worker count.
    /// Records every result of one computed chunk, in order.  The chunk
    /// must be exactly the next unfilled stretch of the grid; afterwards
    /// the grid is filled up to the chunk's end.
    fn record_chunk(&mut self, results: &Vec<(usize, CellState)>, chunk: Chunk)
        requires
            old(self).wf(),
            old(self).spec_phase() is Collecting,
            chunk.start <= chunk.end <= old(self).spec_grid().total(),
            results@.len() == chunk.len(),
            forall|j: int|
                0 <= j < results@.len() ==> (#[trigger] results@[j]).0 == chunk.start + j
                    && results@[j].1 == spec_step(
                    old(self).cells()[chunk.start + j],
                    old(self).spec_params(),
                    neighbor_states(old(self).cells(), old(self).spec_grid(), chunk.start + j),
                ),
            forall|i: int|
                chunk.start <= i < old(self).spec_grid().total()
                    ==> !(#[trigger] old(self).received()[i]),
        ensures
            final(self).wf(),
            final(self).spec_phase() is Collecting,
            final(self).spec_grid() == old(self).spec_grid(),
            final(self).spec_params() == old(self).spec_params(),
            final(self).spec_threads() == old(self).spec_threads(),
            final(self).spec_chunks() == old(self).spec_chunks(),
            final(self).cells() == old(self).cells(),
            final(self).spec_generation() == old(self).spec_generation(),
            forall|i: int|
                0 <= i < old(self).spec_grid().total() && !(chunk.start <= i < chunk.end)
                    ==> #[trigger] final(self).received()[i] == old(self).received()[i]
                    && final(self).scratch()[i] == old(self).scratch()[i],
            forall|i: int|
                chunk.start <= i < chunk.end ==> #[trigger] final(self).received()[i]
                    && final(self).scratch()[i] == next_generation(
                    old(self).cells(),
                    old(self).spec_grid(),
                    old(self).spec_params(),
                )[i],
    {
        let ghost pre = *self;
        let ghost goal = next_generation(pre.cells(), pre.spec_grid(), pre.spec_params());
        let mut rj: usize = 0;
        while rj < results.len()
            invariant
                pre.wf(),
                pre.spec_phase() is Collecting,
                self.wf(),
                self.spec_phase() is Collecting,
                self.spec_grid() == pre.spec_grid(),
                self.spec_params() == pre.spec_params(),
                self.spec_threads() == pre.spec_threads(),
                self.spec_chunks() == pre.spec_chunks(),
                self.cells() == pre.cells(),
                self.spec_generation() == pre.spec_generation(),
                goal == next_generation(pre.cells(), pre.spec_grid(), pre.spec_params()),
                chunk.start <= chunk.end <= pre.spec_grid().total(),
                0 <= rj <= results@.len() == chunk.len(),
                forall|j: int|
                    0 <= j < results@.len() ==> (#[trigger] results@[j]).0 == chunk.start + j
                        && results@[j].1 == spec_step(
                        pre.cells()[chunk.start + j],
                        pre.spec_params(),
                        neighbor_states(pre.cells(), pre.spec_grid(), chunk.start + j),
                    ),
                forall|i: int|
                    chunk.start + rj <= i < pre.spec_grid().total() ==> #[trigger] self.received()[i]
                        == pre.received()[i] && !pre.received()[i],
                forall|i: int|
                    0 <= i < pre.spec_grid().total() && !(chunk.start <= i < chunk.start + rj)
                        ==> #[trigger] self.received()[i] == pre.received()[i]
                        && self.scratch()[i] == pre.scratch()[i],
                forall|i: int|
                    chunk.start <= i < chunk.start + rj ==> #[trigger] self.received()[i]
                        && self.scratch()[i] == goal[i],
            decreases results@.len() - rj,
        {
            let (idx, state) = results[rj];
            proof {
                lemma_step_valid(
                    pre.cells()[idx as int],
                    pre.spec_params(),
                    neighbor_states(pre.cells(), pre.spec_grid(), idx as int),
                );
                assert(goal[idx as int] == spec_step(
                    pre.cells()[idx as int],
                    pre.spec_params(),
                    neighbor_states(pre.cells(), pre.spec_grid(), idx as int),
                ));
            }
            match self.record_result(idx, state) {
                Ok(()) => {},
                Err(_) => {
                    proof {
                        assert(false);
                    }
                },
            }
            rj += 1;
        }
    }

    #[verifier::rlimit(50)]
    pub fn next(&mut self)
        requires
            old(self).wf(),
            old(self).spec_phase() is Idle,
        ensures
            final(self).wf(),
            final(self).spec_grid() == old(self).spec_grid(),
            final(self).spec_params() == old(self).spec_params(),
            final(self).spec_threads() == old(self).spec_threads(),
            final(self).spec_chunks() == old(self).spec_chunks(),
            final(self).spec_phase() is Idle,
            final(self).cells() == next_generation(
                old(self).cells(),
                old(self).spec_grid(),
                old(self).spec_params(),
            ),
            final(self).scratch() == old(self).cells(),
            final(self).spec_generation() == inc_generation(old(self).spec_generation()),
    {
        let ghost orig = *self;
        let ghost goal = next_generation(orig.cells(), orig.spec_grid(), orig.spec_params());
        match self.begin_generation() {
            Ok(()) => {},
            Err(_) => {
                proof {
                    assert(false);
                }
            },
        }
        let ghost pre = *self;
        let total = self.grid.total_cells();
        let nchunks = self.chunks.len();
        let mut ci: usize = 0;
        while ci < nchunks
            invariant
                self.wf(),
                self.spec_phase() is Collecting,
                pre.wf(),
                goal == next_generation(pre.cells(), pre.spec_grid(), pre.spec_params()),
                self.spec_grid() == pre.spec_grid(),
                self.spec_params() == pre.spec_params(),
                self.spec_threads() == pre.spec_threads(),
                self.spec_chunks() == pre.spec_chunks(),
                self.cells() == pre.cells(),
                self.spec_generation() == pre.spec_generation(),
                total == pre.spec_grid().total(),
                nchunks == pre.spec_chunks().len(),
                0 <= ci <= nchunks,
                forall|i: int|
                    0 <= i < chunk_progress(pre.spec_chunks(), ci as int, total as int)
                        ==> #[trigger] self.received()[i] && self.scratch()[i] == goal[i],
                forall|i: int|
                    chunk_progress(pre.spec_chunks(), ci as int, total as int) <= i < total
                        ==> !(#[trigger] self.received()[i]),
            decreases nchunks - ci,
        {
            let chunk = self.chunks[ci];
            let results = Self::calculate_chunk(self.grid, &self.params, &self.current, chunk);
            self.record_chunk(&results, chunk);
            proof {
                if ci as int + 1 < nchunks {
                    assert(pre.spec_chunks()[ci as int].end == pre.spec_chunks()[ci as int
                        + 1].start);
                    assert(chunk_progress(pre.spec_chunks(), ci as int + 1, total as int)
                        == chunk.end);
                } else {
                    assert(chunk_progress(pre.spec_chunks(), ci as int + 1, total as int)
                        == total);
                    assert(chunk.end == total);
                }
            }
            ci += 1;
        }
        let ghost done = *self;
        match self.finish_generation() {
            Ok(()) => {},
            Err(_) => {
                proof {
                    assert(false);
                }
            },
        }
        proof {
            assert forall|i: int| 0 <= i < total as int implies self.cells()[i] == goal[i] by {
                assert(done.received()[i] && done.scratch()[i] == goal[i]);
            }
            assert(self.cells() =~= goal);
        }
    }
}

/// How far the grid has been filled once the first `ci` chunks are done:
/// the start of the next chunk, or the whole grid after the last.
pub open spec fn chunk_progress(chunks: Seq<Chunk>, ci: int, total: int) -> int {
    if ci < chunks.len() {
        chunks[ci].start as int
    } else {
        total
    }
}

/// The neighborhood a transition sees holds exactly one state per
/// in-bounds 8-connected neighbor of the cell — never a clipped or
/// wrapped entry.
pub proof fn lemma_transition_neighbor_count(cells: Seq<CellState>, g: GridSize, index: int)
    requires
        g.valid(),
        0 <= index < g.total(),
    ensures
        neighbor_states(cells, g, index).len() == in_bounds_neighbor_count(
            g,
            spec_col(g, index),
            spec_row(g, index),
        ),
{
    lemma_neighbors_len(g, spec_col(g, index), spec_row(g, index));
}

/// Advancing a generation is order-independent: the next generation is a
/// pure function of the grid contents, the grid dimensions and the rule,
/// so two engines that agree on those — however many chunks or worker
/// threads each uses — step to identical grids.
pub proof fn lemma_parallelism_independent(a: Automata, b: Automata)
    requires
        a.wf(),
        b.wf(),
        a.spec_grid() == b.spec_grid(),
        a.spec_params() == b.spec_params(),
        a.cells() == b.cells(),
    ensures
        next_generation(a.cells(), a.spec_grid(), a.spec_params()) == next_generation(
            b.cells(),
            b.spec_grid(),
            b.spec_params(),
        ),
{
}

/// One advance applies the rule exactly once to every cell: the cell at
/// `i` of the advanced grid is the step of the prior cell at `i` against
/// its prior neighborhood — and its color is the color of exactly that
/// stepped state.  Reading colors before any advance reflects only the
/// constructed cells, since construction fixes `cells()` directly.
pub proof fn lemma_one_generation_round_trip(start: Automata, stepped: Automata, i: int)
    requires
        start.wf(),
        stepped.spec_grid() == start.spec_grid(),
        stepped.spec_params() == start.spec_params(),
        stepped.cells() == next_generation(start.cells(), start.spec_grid(), start.spec_params()),
        0 <= i < start.cells().len(),
    ensures
        stepped.cells()[i] == spec_step(
            start.cells()[i],
            start.spec_params(),
            neighbor_states(start.cells(), start.spec_grid(), i),
        ),
        spec_color(stepped.cells()[i], stepped.spec_params()) == spec_color(
            spec_step(
                start.cells()[i],
                start.spec_params(),
                neighbor_states(start.cells(), start.spec_grid(), i),
            ),
            start.spec_params(),
        ),
{
}

} // verus!
