//! The persistent decompressor: constructed once per resource, it decodes
//! gzip-framed bytes from whatever the swappable source currently holds and
//! survives the source being refilled between decode passes.

use vstd::assert_seqs_equal;
use vstd::prelude::*;

use crate::inflate::{
    gunzip, gzip_ended, gzip_prefix_ok, inflate_emitted, inflate_fed, inflate_step, inflater_new,
};
use crate::source::SwappableSource;

verus! {

/// Wraps the raw decompressor together with what it has reported so far:
/// whether it reached the end of the gzip stream, and whether it found the
/// compressed data malformed.
///
/// The fields are private: the only decompressor a caller can get is the
/// gzip-mode one `new` builds, so the gzip-shaped guarantees below are never
/// claimed of a decompressor in some other mode.
pub struct PersistentDecompressor {
    raw: flate2::Decompress,
    finished: bool,
    corrupt: bool,
}

impl PersistentDecompressor {
    /// The compressed bytes consumed so far.
    pub closed spec fn fed(self) -> Seq<u8> {
        inflate_fed(self.raw)
    }

    /// The plain bytes produced so far.
    pub closed spec fn emitted(self) -> Seq<u8> {
        inflate_emitted(self.raw)
    }

    /// Whether the end of the gzip stream was reached.
    pub closed spec fn is_finished(self) -> bool {
        self.finished
    }

    /// Whether the compressed data was found malformed.
    pub closed spec fn is_corrupt(self) -> bool {
        self.corrupt
    }

    /// How many plain bytes the consumed compressed prefix determines that
    /// have not been produced yet.
    pub open spec fn pending(self) -> int {
        gunzip(self.fed()).len() - self.emitted().len()
    }

    /// As long as no corruption was found: everything produced is a prefix of
    /// the plain bytes the consumed compressed prefix determines; the
    /// finished flag says exactly whether that prefix is a complete gzip
    /// stream; and at stream end the production is all of it, and no further
    /// input could determine more.
    pub open spec fn wf(self) -> bool {
        &&& !self.is_corrupt() ==> self.pending() >= 0
        &&& !self.is_corrupt() ==> self.emitted() == gunzip(self.fed()).take(
            self.emitted().len() as int,
        )
        &&& !self.is_corrupt() ==> self.is_finished() == gzip_ended(self.fed())
        &&& self.is_finished() && !self.is_corrupt() ==> self.emitted() == gunzip(self.fed())
        &&& self.is_finished() && !self.is_corrupt() ==> forall|ext: Seq<u8>|
            gunzip(self.fed() + ext) == gunzip(self.fed())
    }

    /// Whether the end of the gzip stream was reached.
    pub fn finished(&self) -> (r: bool)
        ensures
            r == self.is_finished(),
    {
        self.finished
    }

    /// Whether the compressed data was found malformed.
    pub fn corrupt(&self) -> (r: bool)
        ensures
            r == self.is_corrupt(),
    {
        self.corrupt
    }

    /// A fresh gzip-mode decompressor: nothing consumed, nothing produced.
    pub fn new() -> (d: Self)
        ensures
            d.wf(),
            d.fed() == Seq::<u8>::empty(),
            d.emitted() == Seq::<u8>::empty(),
            !d.is_finished(),
            !d.is_corrupt(),
    {
        let raw = inflater_new();
        proof {
            assert(inflate_emitted(raw) == gunzip(inflate_fed(raw)).take(0));
        }
        PersistentDecompressor { raw, finished: false, corrupt: false }
    }

    /// Decode as much as the source's remaining bytes allow, returning the
    /// plain bytes produced.
    ///
    /// The pass stops when the source is drained, when the gzip stream ends,
    /// or when the decompressor rejects the data — and it reports corruption
    /// only then: if it comes back corrupt, the bytes it was offered (what
    /// was consumed before plus the source's remainder) are no acceptable
    /// gzip prefix. Running out of source bytes mid-member is not an error:
    /// it is the expected chunk-boundary condition, and the caller resolves
    /// it by installing the next chunk.
    #[verifier::loop_isolation(false)]
    pub fn decode_pass(&mut self, src: &mut SwappableSource) -> (out: Vec<u8>)
        requires
            old(self).wf(),
            !old(self).is_finished(),
            !old(self).is_corrupt(),
            old(src).wf(),
        ensures
            final(self).wf(),
            final(src).wf(),
            final(src).installed() == old(src).installed(),
            old(src).consumed() <= final(src).consumed(),
            final(self).is_finished() || final(self).is_corrupt()
                || final(src).remaining().len() == 0,
            final(self).is_corrupt() ==> !gzip_prefix_ok(
                old(self).fed() + old(src).remaining(),
            ),
            !final(self).is_corrupt() ==> {
                &&& final(self).fed() == old(self).fed() + old(src).installed().subrange(
                    old(src).consumed(),
                    final(src).consumed(),
                )
                &&& final(self).emitted() == old(self).emitted() + out@
            },
    {
        let mut out: Vec<u8> = Vec::new();
        let mut halt = false;
        while !halt
            invariant
                src.wf(),
                src.installed() == old(src).installed(),
                old(src).consumed() <= src.consumed(),
                halt ==> self.finished || self.corrupt || src.remaining().len() == 0,
                self.corrupt ==> halt,
                self.finished ==> halt,
                self.corrupt ==> !gzip_prefix_ok(old(self).fed() + old(src).remaining()),
                !self.corrupt ==> {
                    &&& self.fed() == old(self).fed() + old(src).installed().subrange(
                        old(src).consumed(),
                        src.consumed(),
                    )
                    &&& self.emitted() == old(self).emitted() + out@
                    &&& self.pending() >= 0
                    &&& self.emitted() == gunzip(self.fed()).take(self.emitted().len() as int)
                    &&& self.finished == gzip_ended(self.fed())
                    &&& (self.finished ==> self.emitted() == gunzip(self.fed()))
                    &&& (self.finished ==> forall|ext: Seq<u8>|
                        gunzip(self.fed() + ext) == gunzip(self.fed()))
                },
            decreases (if halt {
                0int
            } else {
                1int
            }), src.remaining().len(), self.pending(),
        {
            if src.is_drained() {
                halt = true;
            } else {
                let ghost fed_before = self.fed();
                let ghost em_before = self.emitted();
                let ghost pos_before = src.consumed();
                let step = inflate_step(&mut self.raw, src.bytes(), src.cursor());
                match step {
                    Result::Err(()) => {
                        proof {
                            let inst = old(src).installed();
                            let a = old(src).consumed();
                            assert_seqs_equal!(
                                fed_before + inst.skip(pos_before)
                                    == old(self).fed() + inst.skip(a)
                            );
                        }
                        self.corrupt = true;
                        halt = true;
                    },
                    Result::Ok(s) => {
                        proof {
                            assert(src.remaining().len() == src.installed().len()
                                - src.consumed());
                        }
                        let ghost prod = s.output@;
                        src.advance(s.consumed);
                        let mut produced = s.output;
                        out.append(&mut produced);
                        if s.end {
                            self.finished = true;
                            halt = true;
                        }
                        proof {
                            let inst = old(src).installed();
                            let base = old(self).fed();
                            let a = old(src).consumed();
                            let pos_now = src.consumed();
                            assert(src.installed() == inst);
                            assert(0 <= a <= pos_before);
                            assert(pos_before + s.consumed == pos_now);
                            assert(pos_now <= inst.len());
                            assert_seqs_equal!(
                                inst.subrange(a, pos_now)
                                    == inst.subrange(a, pos_before)
                                        + inst.subrange(pos_before, pos_now)
                            );
                            assert_seqs_equal!(
                                base + inst.subrange(a, pos_now)
                                    == fed_before + inst.subrange(pos_before, pos_now)
                            );
                            assert_seqs_equal!(
                                old(self).emitted() + out@ == em_before + prod
                            );
                            if s.consumed == 0 {
                                assert_seqs_equal!(self.fed() == fed_before);
                                if !s.end && prod.len() == 0 {
                                    assert(false);
                                }
                            }
                        }
                    },
                }
            }
        }
        out
    }
}

} // verus!
