//! The chunk partitioner: splits the flat cell index range `[0, total)`
//! into a fixed number of contiguous, non-overlapping chunks that cover
//! the whole range exactly once.
//!
//! The first `k - 1` chunks each hold `total / k` cells; the final chunk
//! absorbs the remainder, so it is at least as large as the others.

use vstd::prelude::*;

verus! {

use vstd::arithmetic::div_mod::{lemma_fundamental_div_mod, lemma_mod_division_less_than_divisor};
use vstd::arithmetic::mul::{lemma_mul_inequality, lemma_mul_is_distributive_add_other_way};

/// A half-open range of linear cell indices, assigned as one unit of
/// work.
#[derive(Clone, Copy, Debug, PartialEq, Eq, Structural)]
pub struct Chunk {
    pub start: usize,
    pub end: usize,
}

impl Chunk {
    pub open spec fn len(self) -> int {
        self.end - self.start
    }

    pub open spec fn contains(self, x: int) -> bool {
        self.start <= x < self.end
    }
}

/// The chunk sequence partitions `[0, total)`: it starts at 0, ends at
/// `total`, and each chunk begins exactly where the previous one ends.
pub open spec fn chunks_partition(chunks: Seq<Chunk>, total: int) -> bool {
    &&& chunks.len() >= 1
    &&& chunks[0].start == 0
    &&& chunks[chunks.len() - 1].end == total
    &&& forall|i: int| 0 <= i < chunks.len() ==> (#[trigger] chunks[i]).start <= chunks[i].end
    &&& forall|i: int| 0 <= i < chunks.len() ==> (#[trigger] chunks[i]).end <= total
    &&& forall|i: int|
        0 <= i < chunks.len() - 1 ==> (#[trigger] chunks[i]).end == chunks[i + 1].start
}

/// The size of every chunk but the last, when `[0, total)` is split into
/// `k` chunks.
pub open spec fn spec_chunk_size(total: int, k: int) -> int {
    total / k
}

/// Splits `[0, total)` into `k` contiguous chunks: the first `k - 1` hold
/// `total / k` indices each, the last runs to `total`.
pub fn make_chunks(total: usize, k: usize) -> (chunks: Vec<Chunk>)
    requires
        1 <= k <= total,
    ensures
        chunks@.len() == k,
        chunks_partition(chunks@, total as int),
        forall|i: int|
            0 <= i < k ==> (#[trigger] chunks@[i]).start == i * spec_chunk_size(
                total as int,
                k as int,
            ),
        forall|i: int|
            0 <= i < k - 1 ==> (#[trigger] chunks@[i]).end == (i + 1) * spec_chunk_size(
                total as int,
                k as int,
            ),
        chunks@[k - 1].end == total,
{
    let size = total / k;
    proof {
        lemma_fundamental_div_mod(total as int, k as int);
        lemma_mod_division_less_than_divisor(total as int, k as int);
        assert((k as int) * (size as int) <= total) by (nonlinear_arith)
            requires
                total as int == (k as int) * (total as int / k as int) + (total as int % k as int),
                size as int == total as int / k as int,
                total as int % k as int >= 0,
        ;
    }
    let mut chunks: Vec<Chunk> = Vec::new();
    let mut i: usize = 0;
    while i < k - 1
        invariant
            1 <= k <= total,
            size == spec_chunk_size(total as int, k as int),
            (k as int) * (size as int) <= total,
            0 <= i <= k - 1,
            chunks@.len() == i,
            forall|j: int| 0 <= j < i ==> (#[trigger] chunks@[j]).start == j * (size as int),
            forall|j: int| 0 <= j < i ==> (#[trigger] chunks@[j]).end == (j + 1) * (size as int),
        decreases k - 1 - i,
    {
        proof {
            assert(0 <= (i as int) * (size as int) && (i as int) * (size as int) + size as int == (
            i as int + 1) * (size as int) && (i as int + 1) * (size as int) <= (k as int) * (
            size as int)) by (nonlinear_arith)
                requires
                    0 <= i as int <= k as int - 1,
                    size as int >= 0,
            ;
        }
        let start = i * size;
        chunks.push(Chunk { start, end: start + size });
        i += 1;
    }
    proof {
        assert(0 <= (k as int - 1) * (size as int) && (k as int - 1) * (size as int) <= (k as int)
            * (size as int)) by (nonlinear_arith)
            requires
                k as int >= 1,
                size as int >= 0,
        ;
    }
    let last_start = (k - 1) * size;
    proof {
        assert(k >= 2 ==> chunks@[0].start == 0 * (size as int));
    }
    chunks.push(Chunk { start: last_start, end: total });
    proof {
        assert forall|j: int| 0 <= j < k implies (#[trigger] chunks@[j]).start
            <= chunks@[j].end by {
            if j < k - 1 {
                lemma_mul_inequality(j, j + 1, size as int);
            }
        }
        assert forall|j: int| 0 <= j < k implies (#[trigger] chunks@[j]).end <= total by {
            if j < k - 1 {
                lemma_mul_inequality(j + 1, k as int, size as int);
            }
        }
        assert forall|j: int| 0 <= j < k - 1 implies (#[trigger] chunks@[j]).end == chunks@[j
            + 1].start by {
            lemma_mul_is_distributive_add_other_way(size as int, j, 1);
            assert((j + 1) * (size as int) == (size as int) * (j + 1)) by (nonlinear_arith);
            assert(j * (size as int) == (size as int) * j) by (nonlinear_arith);
        }
    }
    chunks
}

/// Every index in `[0, total)` falls in some chunk at or after position
/// `j`, provided the chunk at `j` starts at or before it.
proof fn lemma_partition_covers_from(chunks: Seq<Chunk>, total: int, x: int, j: int)
    requires
        chunks_partition(chunks, total),
        0 <= j < chunks.len(),
        chunks[j].start <= x < total,
    ensures
        exists|i: int| j <= i < chunks.len() && (#[trigger] chunks[i]).contains(x),
    decreases chunks.len() - j,
{
    if x < chunks[j].end {
        assert(chunks[j].contains(x));
    } else {
        assert(j < chunks.len() - 1);
        lemma_partition_covers_from(chunks, total, x, j + 1);
    }
}

/// Chunks cover the whole range: every index in `[0, total)` lies in some
/// chunk.
pub proof fn lemma_partition_covers(chunks: Seq<Chunk>, total: int, x: int)
    requires
        chunks_partition(chunks, total),
        0 <= x < total,
    ensures
        exists|i: int| 0 <= i < chunks.len() && (#[trigger] chunks[i]).contains(x),
{
    lemma_partition_covers_from(chunks, total, x, 0);
}

/// Chunks do not overlap: an earlier chunk ends at or before a later one
/// begins, so no index lies in two chunks.
pub proof fn lemma_partition_disjoint(chunks: Seq<Chunk>, total: int, i: int, j: int)
    requires
        chunks_partition(chunks, total),
        0 <= i < j < chunks.len(),
    ensures
        chunks[i].end <= chunks[j].start,
        forall|x: int| chunks[i].contains(x) ==> !chunks[j].contains(x),
    decreases j - i,
{
    if j == i + 1 {
    } else {
        lemma_partition_disjoint(chunks, total, i + 1, j);
    }
}

} // verus!
