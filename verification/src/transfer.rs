//! The transfer worker: one file, moved block by block.
//!
//! A [`TransferWorker`] decides how many bytes the next step moves. The
//! caller reads that many bytes from the source, writes them to the
//! destination and reports the count as a progress event. [`transfer`] runs
//! the same steps on a source held in memory.

use vstd::prelude::*;
use crate::chunking::{
    block_size, chunk_count, chunks, file_chunks, lemma_chunk_bounds, lemma_chunk_count_at_most_size,
    lemma_chunk_index_in_plan, lemma_prefix_sum, spec_block_size, sum_bytes,
};

verus! {

/// The state of one file transfer: the size of the file, what is left to
/// move, the block size, and the number of blocks handed out so far.
pub struct TransferWorker {
    size: usize,
    bytes_remaining: usize,
    block_size: usize,
    blocks_emitted: usize,
}

impl TransferWorker {
    /// The size of the file, as measured when the transfer started.
    pub closed spec fn spec_size(&self) -> usize {
        self.size
    }

    /// The number of bytes not yet moved.
    pub closed spec fn spec_bytes_remaining(&self) -> usize {
        self.bytes_remaining
    }

    /// The number of blocks handed out so far.
    pub closed spec fn spec_blocks_emitted(&self) -> usize {
        self.blocks_emitted
    }

    /// The number of bytes already moved, which is also the offset in the
    /// file at which the next block starts.
    pub open spec fn spec_offset(&self) -> int {
        self.spec_size() - self.spec_bytes_remaining()
    }

    /// The worker's invariant: the block size is the one that belongs to
    /// the file's size, and what has been moved is exactly the blocks of
    /// the plan handed out so far.
    pub closed spec fn wf(&self) -> bool {
        &&& self.block_size == spec_block_size(self.size)
        &&& self.bytes_remaining <= self.size
        &&& self.blocks_emitted <= chunk_count(self.size, self.block_size)
        &&& self.size - self.bytes_remaining == sum_bytes(
            chunks(self.size, self.block_size).take(self.blocks_emitted as int),
        )
    }

    /// A worker for a file of `size` bytes, with nothing moved yet.
    pub fn new(size: usize) -> (worker: TransferWorker)
        ensures
            worker.wf(),
            worker.spec_size() == size,
            worker.spec_bytes_remaining() == size,
            worker.spec_blocks_emitted() == 0,
    {
        let block: usize = block_size(size);
        proof {
            lemma_prefix_sum(size, block, 0);
            assert(0 * (block as int) == 0) by (nonlinear_arith);
        }
        TransferWorker { size, bytes_remaining: size, block_size: block, blocks_emitted: 0 }
    }

    /// The size of the file, as measured when the transfer started.
    #[verifier::when_used_as_spec(spec_size)]
    pub fn size(&self) -> (size: usize)
        ensures
            size == self.spec_size(),
    {
        self.size
    }

    /// The number of bytes not yet moved.
    #[verifier::when_used_as_spec(spec_bytes_remaining)]
    pub fn bytes_remaining(&self) -> (remaining: usize)
        ensures
            remaining == self.spec_bytes_remaining(),
    {
        self.bytes_remaining
    }

    /// The number of blocks handed out so far.
    #[verifier::when_used_as_spec(spec_blocks_emitted)]
    pub fn blocks_emitted(&self) -> (emitted: usize)
        ensures
            emitted == self.spec_blocks_emitted(),
    {
        self.blocks_emitted
    }

    /// The block size of this transfer.
    pub fn block_size(&self) -> (block: usize)
        requires
            self.wf(),
        ensures
            block == spec_block_size(self.spec_size()),
    {
        self.block_size
    }

    /// The offset in the file at which the next block starts.
    pub fn offset(&self) -> (offset: usize)
        requires
            self.wf(),
        ensures
            offset == self.spec_offset(),
    {
        self.size - self.bytes_remaining
    }

    /// Whether the whole file has been moved.
    pub fn is_finished(&self) -> (finished: bool)
        requires
            self.wf(),
        ensures
            finished <==> self.spec_bytes_remaining() == 0,
            finished <==> self.spec_blocks_emitted() == file_chunks(self.spec_size()).len(),
    {
        proof {
            self.lemma_progress();
        }
        self.bytes_remaining == 0
    }

    /// What has been moved is a whole number of blocks, or the whole file;
    /// the worker is done exactly when every block of the plan was handed
    /// out.
    pub proof fn lemma_progress(&self)
        requires
            self.wf(),
        ensures
            self.spec_blocks_emitted() <= file_chunks(self.spec_size()).len(),
            self.spec_offset() == sum_bytes(
                file_chunks(self.spec_size()).take(self.spec_blocks_emitted() as int),
            ),
            self.spec_offset() == if self.spec_blocks_emitted() * spec_block_size(self.spec_size())
                <= self.spec_size() {
                self.spec_blocks_emitted() * spec_block_size(self.spec_size())
            } else {
                self.spec_size() as int
            },
            self.spec_bytes_remaining() == 0 <==> self.spec_blocks_emitted() == file_chunks(
                self.spec_size(),
            ).len(),
    {
        let k: int = self.blocks_emitted as int;
        lemma_prefix_sum(self.size, self.block_size, k);
        lemma_chunk_index_in_plan(self.size, self.block_size, k);
    }

    /// Hands out the length of the next block and counts it as moved.
    ///
    /// Returns `None`, and changes nothing, once the whole file has been
    /// moved. Otherwise the block is `min(bytes_remaining, block_size)`
    /// bytes long, which is the next entry of the file's plan.
    pub fn next_chunk(&mut self) -> (next: Option<usize>)
        requires
            old(self).wf(),
        ensures
            final(self).wf(),
            final(self).spec_size() == old(self).spec_size(),
            next is None <==> old(self).spec_bytes_remaining() == 0,
            match next {
                None => *final(self) == *old(self),
                Some(n) => {
                    &&& n == if old(self).spec_bytes_remaining() < spec_block_size(
                        old(self).spec_size(),
                    ) {
                        old(self).spec_bytes_remaining()
                    } else {
                        spec_block_size(old(self).spec_size())
                    }
                    &&& n > 0
                    &&& final(self).spec_bytes_remaining() == old(self).spec_bytes_remaining() - n
                    &&& final(self).spec_blocks_emitted() == old(self).spec_blocks_emitted() + 1
                    &&& old(self).spec_blocks_emitted() < file_chunks(old(self).spec_size()).len()
                    &&& n == file_chunks(old(self).spec_size())[old(self).spec_blocks_emitted() as int]
                },
            },
    {
        if self.bytes_remaining == 0 {
            return None;
        }
        let n: usize = if self.bytes_remaining < self.block_size {
            self.bytes_remaining
        } else {
            self.block_size
        };
        proof {
            let k: int = self.blocks_emitted as int;
            let plan = chunks(self.size, self.block_size);
            lemma_prefix_sum(self.size, self.block_size, k);
            lemma_chunk_index_in_plan(self.size, self.block_size, k);
            lemma_chunk_bounds(self.size, self.block_size, k);
            lemma_chunk_count_at_most_size(self.size, self.block_size);
            assert(plan.take(k + 1).drop_last() =~= plan.take(k));
            assert(plan.take(k + 1).last() == plan[k]);
        }
        self.bytes_remaining = self.bytes_remaining - n;
        self.blocks_emitted = self.blocks_emitted + 1;
        Some(n)
    }
}

/// What a transfer in memory leaves behind.
pub struct TransferOutcome {
    /// The bytes written to the destination.
    pub destination: Vec<u8>,
    /// The progress events, in the order in which they were emitted.
    pub events: Vec<usize>,
    /// Whether every block of the plan was moved.
    pub complete: bool,
}

/// A freshly allocated buffer of `n` zero bytes.
pub fn zeroed_buffer(n: usize) -> (buffer: Vec<u8>)
    ensures
        buffer@ == Seq::new(n as nat, |i: int| 0u8),
{
    let mut buffer: Vec<u8> = Vec::new();
    let mut filled: usize = 0;
    while filled < n
        invariant
            filled <= n,
            buffer@ =~= Seq::new(filled as nat, |i: int| 0u8),
        decreases n - filled,
    {
        buffer.push(0u8);
        filled = filled + 1;
    }
    buffer
}

/// Reads exactly `buffer.len()` bytes of `source`, starting at `offset`,
/// into `buffer`.
///
/// Returns `false`, and leaves the buffer as it was, when the source ends
/// before the buffer is full.
pub fn read_block(source: &Vec<u8>, offset: usize, buffer: &mut Vec<u8>) -> (filled: bool)
    ensures
        filled <==> offset + old(buffer)@.len() <= source@.len(),
        filled ==> final(buffer)@ == source@.subrange(
            offset as int,
            offset + old(buffer)@.len(),
        ),
        !filled ==> final(buffer)@ == old(buffer)@,
{
    let n: usize = buffer.len();
    if offset > source.len() || n > source.len() - offset {
        return false;
    }
    let mut i: usize = 0;
    while i < n
        invariant
            i <= n,
            n == buffer@.len(),
            offset + n <= source@.len() <= usize::MAX,
            buffer@.take(i as int) =~= source@.subrange(offset as int, offset + i),
        decreases n - i,
    {
        buffer.set(i, source[offset + i]);
        i = i + 1;
    }
    assert(buffer@.take(n as int) =~= buffer@);
    true
}

/// Writes the bytes of `buffer` at the end of `destination`.
pub fn write_block(destination: &mut Vec<u8>, buffer: &Vec<u8>)
    ensures
        final(destination)@ == old(destination)@ + buffer@,
{
    let n: usize = buffer.len();
    let mut i: usize = 0;
    while i < n
        invariant
            i <= n,
            n == buffer@.len(),
            destination@ =~= old(destination)@ + buffer@.take(i as int),
        decreases n - i,
    {
        destination.push(buffer[i]);
        i = i + 1;
    }
    assert(buffer@.take(n as int) =~= buffer@);
}

/// Moves a source held in memory to a fresh destination, block by block,
/// as a worker moves a file.
///
/// `size` is the size that was measured for the source before the transfer
/// started; it is not checked against `source` again. The blocks are those
/// of the plan for `size`, and one progress event is emitted for each block
/// moved. A source that is longer than `size` is copied up to `size` bytes.
/// A source that is shorter stops the transfer at the first block that it
/// cannot fill; the blocks moved before that one stay in the destination.
pub fn transfer(source: &Vec<u8>, size: usize) -> (outcome: TransferOutcome)
    ensures
        outcome.complete <==> size <= source@.len(),
        outcome.events@.len() <= file_chunks(size).len(),
        outcome.events@ == file_chunks(size).take(outcome.events@.len() as int),
        sum_bytes(outcome.events@) <= source@.len(),
        outcome.destination@ == source@.take(sum_bytes(outcome.events@)),
        outcome.complete ==> outcome.events@ == file_chunks(size),
        outcome.complete ==> outcome.destination@ == source@.take(size as int),
        size == source@.len() ==> outcome.complete && outcome.destination@ == source@ && sum_bytes(
            outcome.events@,
        ) == size,
        !outcome.complete ==> outcome.events@.len() < file_chunks(size).len() && sum_bytes(
            file_chunks(size).take(outcome.events@.len() as int + 1),
        ) > source@.len(),
{
    let mut worker = TransferWorker::new(size);
    let mut destination: Vec<u8> = Vec::new();
    let mut events: Vec<usize> = Vec::new();
    let mut complete: bool = true;
    let ghost plan = file_chunks(size);
    proof {
        worker.lemma_progress();
        assert(plan.take(0) =~= events@);
        assert(source@.take(0) =~= destination@);
    }
    loop
        invariant_except_break
            complete,
            worker.wf(),
            worker.spec_size() == size,
            events@.len() == worker.spec_blocks_emitted(),
        invariant
            plan == file_chunks(size),
            events@.len() <= plan.len(),
            events@ == plan.take(events@.len() as int),
            sum_bytes(events@) <= source@.len(),
            sum_bytes(events@) <= size,
            destination@ == source@.take(sum_bytes(events@)),
        ensures
            complete ==> events@.len() == plan.len() && sum_bytes(events@) == size,
            !complete ==> events@.len() < plan.len() && sum_bytes(
                plan.take(events@.len() as int + 1),
            ) > source@.len(),
        decreases worker.spec_bytes_remaining(),
    {
        proof {
            worker.lemma_progress();
        }
        let offset: usize = worker.offset();
        let next = worker.next_chunk();
        match next {
            None => {
                break ;
            },
            Some(n) => {
                proof {
                    worker.lemma_progress();
                }
                let mut buffer = zeroed_buffer(n);
                let filled = read_block(source, offset, &mut buffer);
                if !filled {
                    complete = false;
                    break ;
                }
                write_block(&mut destination, &buffer);
                events.push(n);
                proof {
                    assert(events@ =~= plan.take(events@.len() as int));
                    assert(destination@ =~= source@.take(offset + n));
                }
            },
        }
    }
    proof {
        if complete {
            assert(plan.take(plan.len() as int) =~= plan);
            assert(source@.take(source@.len() as int) =~= source@);
        } else {
            lemma_prefix_sum(size, spec_block_size(size), events@.len() as int + 1);
        }
    }
    TransferOutcome { destination, events, complete }
}

} // verus!
