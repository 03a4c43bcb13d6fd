//! A single logical byte source whose backing bytes can be replaced.
//!
//! The decompressor is built once and always reads "the current stream"; the
//! orchestrator swaps which chunk's bytes that is, exactly at chunk
//! boundaries (only when the previous chunk has been fully consumed or the
//! decoder is done with it).

use vstd::prelude::*;

verus! {

/// Holds the bytes of exactly one live chunk, consumed left to right.
///
/// `pos` is how many of `data`'s bytes have already been handed to the
/// decompressor; the bytes still to be read are `data[pos..]`.
pub struct SwappableSource {
    data: Vec<u8>,
    pos: usize,
}

impl SwappableSource {
    /// All bytes of the currently installed chunk.
    pub closed spec fn installed(self) -> Seq<u8> {
        self.data@
    }

    /// How many bytes of the installed chunk have been consumed.
    pub closed spec fn consumed(self) -> int {
        self.pos as int
    }

    /// The source is well formed when the cursor lies within the data.
    pub open spec fn wf(self) -> bool {
        0 <= self.consumed() <= self.installed().len()
    }

    /// The bytes not yet handed out.
    pub open spec fn remaining(self) -> Seq<u8> {
        self.installed().skip(self.consumed())
    }

    /// An empty source: nothing installed, nothing to read.
    pub fn new() -> (s: Self)
        ensures
            s.wf(),
            s.installed() == Seq::<u8>::empty(),
            s.consumed() == 0,
    {
        SwappableSource { data: Vec::new(), pos: 0 }
    }

    /// Replace the installed stream with a new chunk's bytes.
    ///
    /// The previous chunk's bytes, consumed or not, are discarded; reading
    /// resumes at the start of the new chunk.
    pub fn install(&mut self, chunk: Vec<u8>)
        ensures
            final(self).wf(),
            final(self).installed() == chunk@,
            final(self).consumed() == 0,
    {
        self.data = chunk;
        self.pos = 0;
    }

    /// Whether every installed byte has been consumed.
    pub fn is_drained(&self) -> (r: bool)
        requires
            self.wf(),
        ensures
            r == (self.remaining().len() == 0),
    {
        self.pos == self.data.len()
    }

    /// Borrow the installed bytes; reading starts at `self.consumed()`.
    pub fn bytes(&self) -> (r: &Vec<u8>)
        ensures
            r@ == self.installed(),
    {
        &self.data
    }

    /// The cursor into the installed bytes.
    pub fn cursor(&self) -> (r: usize)
        ensures
            r as int == self.consumed(),
    {
        self.pos
    }

    /// Mark `n` further bytes as consumed.
    pub fn advance(&mut self, n: usize)
        requires
            old(self).wf(),
            n <= old(self).remaining().len(),
        ensures
            final(self).wf(),
            final(self).installed() == old(self).installed(),
            final(self).consumed() == old(self).consumed() + n,
    {
        let len = self.data.len();
        proof {
            assert(old(self).remaining().len() == self.data@.len() - self.pos);
            assert(self.pos + n <= len);
        }
        self.pos = self.pos + n;
    }
}

} // verus!
