//! How a file of a given size is cut into blocks.
//!
//! A transfer moves a file in blocks of one fixed size, the last one
//! possibly shorter. The block size is a tenth of the file, but never less
//! than [`MIN_BLOCK_SIZE`], so that a large file takes about ten steps and a
//! small one a single step.

use vstd::prelude::*;

verus! {

/// The smallest block size a transfer uses, in bytes.
pub const MIN_BLOCK_SIZE: usize = 500_000;

/// The block size for a file of `size` bytes: `max(500_000, size / 10)`.
pub open spec fn spec_block_size(size: usize) -> usize {
    if size / 10 >= MIN_BLOCK_SIZE {
        (size / 10) as usize
    } else {
        MIN_BLOCK_SIZE
    }
}

/// Number of blocks needed to move `size` bytes in blocks of `block` bytes:
/// `size / block`, rounded up.
pub open spec fn chunk_count(size: usize, block: usize) -> nat {
    if block == 0 {
        0
    } else {
        ((size + block - 1) / (block as int)) as nat
    }
}

/// Length of block number `i` (counted from zero): a full block while one
/// still fits, else what is left of the file.
pub open spec fn chunk_at(size: usize, block: usize, i: int) -> usize {
    if (i + 1) * block <= size {
        block
    } else {
        (size - i * block) as usize
    }
}

/// The lengths of the blocks, in file order, that move `size` bytes in
/// blocks of `block` bytes.
pub open spec fn chunks(size: usize, block: usize) -> Seq<usize> {
    Seq::new(chunk_count(size, block), |i: int| chunk_at(size, block, i))
}

/// The lengths of the blocks in which a file of `size` bytes is moved.
pub open spec fn file_chunks(size: usize) -> Seq<usize> {
    chunks(size, spec_block_size(size))
}

/// The sum of a sequence of byte counts.
pub open spec fn sum_bytes(counts: Seq<usize>) -> int
    decreases counts.len(),
{
    if counts.len() == 0 {
        0
    } else {
        sum_bytes(counts.drop_last()) + counts.last()
    }
}

/// Computes the block size for a file of `size` bytes.
#[verifier::when_used_as_spec(spec_block_size)]
pub fn block_size(size: usize) -> (block: usize)
    ensures
        block == spec_block_size(size),
        block >= MIN_BLOCK_SIZE,
        block >= size / 10,
{
    let tenth: usize = size / 10;
    if tenth >= MIN_BLOCK_SIZE {
        tenth
    } else {
        MIN_BLOCK_SIZE
    }
}

/// A block index lies inside the plan exactly while the blocks before it
/// leave part of the file unmoved.
pub proof fn lemma_chunk_index_in_plan(size: usize, block: usize, k: int)
    requires
        block > 0,
        0 <= k,
    ensures
        k < chunk_count(size, block) <==> k * block < size,
{
    let s: int = size as int;
    let b: int = block as int;
    let c: int = (s + b - 1) / b;
    assert(0 <= (s + b - 1) - c * b < b && c >= 0) by (nonlinear_arith)
        requires
            b > 0,
            s >= 0,
            c == (s + b - 1) / b,
    ;
    if k < c {
        assert(k * b < s) by (nonlinear_arith)
            requires
                b > 0,
                0 <= k,
                k + 1 <= c,
                c * b <= s + b - 1,
        ;
    } else {
        assert(k * b >= s) by (nonlinear_arith)
            requires
                b > 0,
                k >= c,
                c >= 0,
                s + b - 1 - c * b < b,
        ;
    }
}

/// A plan never has more blocks than the file has bytes.
pub proof fn lemma_chunk_count_at_most_size(size: usize, block: usize)
    requires
        block > 0,
    ensures
        chunk_count(size, block) <= size,
{
    let s: int = size as int;
    lemma_chunk_index_in_plan(size, block, s);
    assert(s * block >= s) by (nonlinear_arith)
        requires
            s >= 0,
            block >= 1,
    ;
}

/// Every block of a plan holds at least one byte and at most `block` bytes,
/// and every block but the last is full.
pub proof fn lemma_chunk_bounds(size: usize, block: usize, i: int)
    requires
        block > 0,
        0 <= i < chunk_count(size, block),
    ensures
        1 <= chunks(size, block)[i] <= block,
        i + 1 < chunk_count(size, block) ==> chunks(size, block)[i] == block,
        chunks(size, block)[i] == if size - i * block < block {
            size - i * block
        } else {
            block as int
        },
{
    let s: int = size as int;
    let b: int = block as int;
    lemma_chunk_index_in_plan(size, block, i);
    lemma_chunk_index_in_plan(size, block, i + 1);
    assert((i + 1) * b == i * b + b) by (nonlinear_arith);
    assert(0 <= i * b) by (nonlinear_arith)
        requires
            0 <= i,
            0 < b,
    ;
}

/// The first `k` blocks of a plan move `k * block` bytes, or the whole file
/// once that is reached.
pub proof fn lemma_prefix_sum(size: usize, block: usize, k: int)
    requires
        block > 0,
        0 <= k <= chunk_count(size, block),
    ensures
        sum_bytes(chunks(size, block).take(k)) == if k * block <= size {
            k * block
        } else {
            size as int
        },
    decreases k,
{
    let plan = chunks(size, block);
    let b: int = block as int;
    if k == 0 {
        assert(plan.take(0).len() == 0);
        assert(0 * b == 0) by (nonlinear_arith);
    } else {
        lemma_prefix_sum(size, block, k - 1);
        lemma_chunk_bounds(size, block, k - 1);
        lemma_chunk_index_in_plan(size, block, k - 1);
        assert(plan.take(k).drop_last() =~= plan.take(k - 1));
        assert(plan.take(k).last() == plan[k - 1]);
        assert(k * b == (k - 1) * b + b) by (nonlinear_arith);
    }
}

/// The blocks of a plan add up to the size of the file.
pub proof fn lemma_chunks_sum(size: usize, block: usize)
    requires
        block > 0,
    ensures
        sum_bytes(chunks(size, block)) == size,
{
    let plan = chunks(size, block);
    let c: int = chunk_count(size, block) as int;
    lemma_prefix_sum(size, block, c);
    lemma_chunk_index_in_plan(size, block, c);
    assert(plan.take(c) =~= plan);
}

/// The blocks in which a file is moved add up to its size.
pub proof fn lemma_file_chunks_sum(size: usize)
    ensures
        sum_bytes(file_chunks(size)) == size,
{
    lemma_chunks_sum(size, spec_block_size(size));
}

/// A file is moved in at most eleven blocks, and in at most ten when its
/// size is a multiple of ten or under five million bytes. An empty file
/// takes no block at all.
pub proof fn lemma_file_chunk_count(size: usize)
    ensures
        file_chunks(size).len() <= 11,
        (size % 10 == 0 || size <= 5_000_000) ==> file_chunks(size).len() <= 10,
        size == 0 <==> file_chunks(size).len() == 0,
        0 < size <= MIN_BLOCK_SIZE ==> file_chunks(size).len() == 1,
{
    let block = spec_block_size(size);
    let s: int = size as int;
    let b: int = block as int;
    assert(11 * b >= s && (s % 10 == 0 ==> 10 * b >= s) && (s <= 5_000_000 ==> 10 * b >= s))
        by (nonlinear_arith)
        requires
            s >= 0,
            b == if s / 10 >= 500_000 {
                s / 10
            } else {
                500_000
            },
    ;
    lemma_chunk_index_in_plan(size, block, 11);
    lemma_chunk_index_in_plan(size, block, 10);
    lemma_chunk_index_in_plan(size, block, 1);
    lemma_chunk_index_in_plan(size, block, 0);
    assert(0 * b == 0 && 1 * b == b) by (nonlinear_arith);
}

/// Lists the block lengths, in file order, in which a file of `size` bytes
/// is moved.
pub fn chunk_plan(size: usize) -> (plan: Vec<usize>)
    ensures
        plan@ == file_chunks(size),
{
    let block: usize = block_size(size);
    let mut remaining: usize = size;
    let mut plan: Vec<usize> = Vec::new();
    proof {
        assert(0 * (block as int) == 0) by (nonlinear_arith);
    }
    while remaining > 0
        invariant
            block == spec_block_size(size),
            block > 0,
            remaining <= size,
            plan@.len() <= chunk_count(size, block),
            plan@ =~= chunks(size, block).take(plan@.len() as int),
            size - remaining == if plan@.len() * block <= size {
                plan@.len() * block
            } else {
                size as int
            },
        decreases remaining,
    {
        let ghost k: int = plan@.len() as int;
        proof {
            lemma_chunk_index_in_plan(size, block, k);
            lemma_chunk_bounds(size, block, k);
            assert((k + 1) * (block as int) == k * (block as int) + block) by (nonlinear_arith);
        }
        let n: usize = if remaining < block {
            remaining
        } else {
            block
        };
        remaining = remaining - n;
        plan.push(n);
        assert(plan@ =~= chunks(size, block).take(k + 1));
    }
    proof {
        let k: int = plan@.len() as int;
        lemma_chunk_index_in_plan(size, block, k);
        assert(chunks(size, block).take(k) =~= chunks(size, block));
    }
    plan
}

} // verus!
