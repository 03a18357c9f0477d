//! Chunking plans: how a probed file is split into consecutive chunks.

use vstd::prelude::*;

verus! {

/// Sum of the first `n` chunk sizes.
pub open spec fn sum_prefix(chunks: Seq<u64>, n: int) -> int
    decreases n,
{
    if n <= 0 {
        0
    } else {
        sum_prefix(chunks, n - 1) + chunks[n - 1]
    }
}

/// Sum of all chunk sizes.
pub open spec fn sum_all(chunks: Seq<u64>) -> int {
    sum_prefix(chunks, chunks.len() as int)
}

/// Prefix sums never decrease, and grow strictly while the chunks are
/// non-empty.
pub proof fn lemma_sum_prefix_monotone(chunks: Seq<u64>, i: int, j: int)
    requires
        0 <= i <= j,
    ensures
        sum_prefix(chunks, i) <= sum_prefix(chunks, j),
        (i < j <= chunks.len() && (forall|t: int| 0 <= t < chunks.len() ==> chunks[t] > 0))
            ==> sum_prefix(chunks, i) < sum_prefix(chunks, j),
    decreases j - i,
{
    if i < j {
        lemma_sum_prefix_monotone(chunks, i, j - 1);
    }
}

/// Prefix sums are never negative.
pub proof fn lemma_sum_prefix_nonneg(chunks: Seq<u64>, n: int)
    ensures
        sum_prefix(chunks, n) >= 0,
    decreases n,
{
    if n > 0 {
        lemma_sum_prefix_nonneg(chunks, n - 1);
    }
}

/// Appending a chunk leaves the earlier prefix sums unchanged.
pub proof fn lemma_sum_prefix_push(chunks: Seq<u64>, x: u64, n: int)
    requires
        0 <= n <= chunks.len(),
    ensures
        sum_prefix(chunks.push(x), n) == sum_prefix(chunks, n),
    decreases n,
{
    if n > 0 {
        lemma_sum_prefix_push(chunks, x, n - 1);
    }
}

/// Appending a chunk adds its size to the total.
pub proof fn lemma_sum_all_push(chunks: Seq<u64>, x: u64)
    ensures
        sum_all(chunks.push(x)) == sum_all(chunks) + x,
{
    lemma_sum_prefix_push(chunks, x, chunks.len() as int);
}

/// How a file of `total_size` bytes is split for transfer: the sizes of the
/// consecutive chunks, which cover the file exactly once, in order, with no
/// gaps or overlaps — their sum is the file size. Fixed once probed.
pub struct ChunkPlan {
    pub chunk_sizes: Vec<u64>,
    pub total_size: u64,
}

impl ChunkPlan {
    /// Every chunk is non-empty and the chunks together cover the file
    /// exactly.
    pub open spec fn wf(self) -> bool {
        &&& sum_all(self.chunk_sizes@) == self.total_size as int
        &&& forall|i: int| 0 <= i < self.chunk_sizes@.len() ==> self.chunk_sizes@[i] > 0
    }

    /// Builds a plan from explicit chunk sizes; succeeds exactly when every
    /// chunk is non-empty and the total fits in a file size.
    pub fn new(chunk_sizes: Vec<u64>) -> (r: Option<ChunkPlan>)
        ensures
            r is Some <==> ((forall|i: int| 0 <= i < chunk_sizes@.len() ==> chunk_sizes@[i] > 0)
                && sum_all(chunk_sizes@) <= u64::MAX),
            r matches Some(p) ==> {
                &&& p.wf()
                &&& p.chunk_sizes@ == chunk_sizes@
                &&& p.total_size as int == sum_all(chunk_sizes@)
            },
    {
        let mut total: u64 = 0;
        let mut i: usize = 0;
        while i < chunk_sizes.len()
            invariant
                0 <= i <= chunk_sizes@.len(),
                total as int == sum_prefix(chunk_sizes@, i as int),
                forall|j: int| 0 <= j < i ==> chunk_sizes@[j] > 0,
            decreases chunk_sizes@.len() - i,
        {
            let c = chunk_sizes[i];
            if c == 0 {
                return None;
            }
            if c > u64::MAX - total {
                proof {
                    lemma_sum_prefix_monotone(chunk_sizes@, i as int + 1, chunk_sizes@.len() as int);
                }
                return None;
            }
            total = total + c;
            i = i + 1;
        }
        Some(ChunkPlan { chunk_sizes, total_size: total })
    }

    /// Splits `total_size` bytes into consecutive chunks of `chunk_size`
    /// bytes, with a smaller final chunk when the size does not divide
    /// evenly; an empty file yields no chunks at all.
    pub fn fixed(total_size: u64, chunk_size: u64) -> (r: ChunkPlan)
        requires
            chunk_size > 0,
        ensures
            r.wf(),
            r.total_size == total_size,
            forall|i: int| 0 <= i < r.chunk_sizes@.len() - 1 ==> r.chunk_sizes@[i] == chunk_size,
            r.chunk_sizes@.len() > 0 ==> r.chunk_sizes@[r.chunk_sizes@.len() - 1] <= chunk_size,
            (r.chunk_sizes@.len() == 0) <==> (total_size == 0),
    {
        let mut sizes: Vec<u64> = Vec::new();
        let mut remaining: u64 = total_size;
        while remaining >= chunk_size
            invariant
                chunk_size > 0,
                sum_all(sizes@) + remaining == total_size,
                forall|i: int| 0 <= i < sizes@.len() ==> sizes@[i] == chunk_size,
            decreases remaining,
        {
            proof {
                lemma_sum_all_push(sizes@, chunk_size);
            }
            sizes.push(chunk_size);
            remaining = remaining - chunk_size;
        }
        proof {
            lemma_sum_prefix_nonneg(sizes@, sizes@.len() as int);
            if sizes@.len() > 0 {
                lemma_sum_prefix_monotone(sizes@, 0, sizes@.len() as int);
            }
        }
        if remaining > 0 {
            proof {
                lemma_sum_all_push(sizes@, remaining);
            }
            sizes.push(remaining);
        }
        ChunkPlan { chunk_sizes: sizes, total_size }
    }
}

} // verus!
