use vstd::prelude::*;

use crate::chunk::Chunk;
use crate::ir::ChunkIR;

verus! {

/// A list of chunks with their geometry and the one currently shown; stepping past either end
/// wraps around.
pub struct ChunkResource {
    chunks: Vec<(Chunk, ChunkIR)>,
    current_index: usize,
}

impl ChunkResource {
    /// The chunks, in order.
    pub closed spec fn entries(&self) -> Seq<(Chunk, ChunkIR)> {
        self.chunks@
    }

    /// The position of the chunk shown.
    pub closed spec fn index(&self) -> nat {
        self.current_index as nat
    }

    pub open spec fn wf(&self) -> bool {
        self.index() < self.entries().len()
    }

    /// Shows the first of `chunks`, which must not be empty.
    pub fn new(chunks: Vec<(Chunk, ChunkIR)>) -> (r: Self)
        requires
            chunks@.len() > 0,
        ensures
            r.wf(),
            r.entries() == chunks@,
            r.index() == 0,
    {
        ChunkResource { chunks, current_index: 0 }
    }

    /// The number of chunks.
    pub fn len(&self) -> (r: usize)
        ensures
            r == self.entries().len(),
    {
        self.chunks.len()
    }

    /// The position of the chunk shown.
    pub fn current_index(&self) -> (r: usize)
        ensures
            r == self.index(),
    {
        self.current_index
    }

    /// The chunk shown and its geometry.
    pub fn current_chunk(&self) -> (r: (&Chunk, &ChunkIR))
        requires
            self.wf(),
        ensures
            *r.0 == self.entries()[self.index() as int].0,
            *r.1 == self.entries()[self.index() as int].1,
    {
        let (chunk, chunk_ir) = &self.chunks[self.current_index];
        (chunk, chunk_ir)
    }

    /// Moves to the next chunk, from the last back to the first.
    pub fn increment_index(&mut self)
        requires
            old(self).wf(),
        ensures
            final(self).wf(),
            final(self).entries() == old(self).entries(),
            final(self).index() == (old(self).index() + 1) % old(self).entries().len(),
    {
        let len = self.chunks.len();
        let ghost n = len as int;
        self.current_index += 1;
        if self.current_index >= len {
            self.current_index = 0;
            assert(n % n == 0) by (nonlinear_arith)
                requires
                    n > 0,
            ;
        } else {
            let ghost k = self.current_index as int;
            assert(k % n == k) by (nonlinear_arith)
                requires
                    0 <= k < n,
            ;
        }
    }

    /// Moves to the previous chunk, from the first on to the last.
    pub fn decrement_index(&mut self)
        requires
            old(self).wf(),
        ensures
            final(self).wf(),
            final(self).entries() == old(self).entries(),
            final(self).index() == (old(self).index() + old(self).entries().len() - 1) % (old(
                self,
            ).entries().len() as int),
    {
        let ghost n = self.chunks@.len() as int;
        let ghost k = self.current_index as int + n - 1;
        assert(k % n == if k >= n { k - n } else { k }) by (nonlinear_arith)
            requires
                n - 1 <= k < 2 * n - 1,
        ;
        if self.current_index == 0 {
            self.current_index = self.chunks.len();
        }
        self.current_index -= 1;
    }
}

} // verus!
