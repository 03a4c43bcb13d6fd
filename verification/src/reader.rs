//! The orchestrating state machine: pull-based access to the decompressed
//! bytes of a remote gzip resource that is fetched in bounded chunks.
//!
//! The reader never touches the network itself. Its caller performs the range
//! fetches: `pull` either serves decompressed bytes, or names the next byte
//! range to fetch (`NeedChunk`), or reports the clean end of the resource
//! (`Done`); fetched bytes come back in through `supply_chunk`.

use vstd::assert_seqs_equal;
use vstd::prelude::*;

use crate::content_range::{
    first_value, last_value, parse_content_range, total_value, well_formed,
};
use crate::decoder::PersistentDecompressor;
use crate::errors::StreamError;
use crate::inflate::{gunzip, gzip_ended, gzip_prefix_ok};
use crate::plan::{
    advance_cursor, chunks_remaining, initial_cursor, lemma_chunks_remaining_bounds,
    lemma_fetch_count_long, lemma_fetch_count_short, min_int, next_chunk_end, total_fetches,
};
use crate::source::SwappableSource;
use crate::PROBE_SIZE;

verus! {

/// What one pull yields.
pub enum Pulled {
    /// Up to the requested number of decompressed bytes.
    Data(Vec<u8>),
    /// Nothing buffered: fetch this inclusive compressed byte range and hand
    /// it to `supply_chunk`.
    NeedChunk(u64, u64),
    /// The resource is fully delivered; every further pull says so again.
    Done,
}

/// The state machine. It owns the swappable source, the persistent
/// decompressor, and the decoded-byte buffer; the compressed cursor
/// `next_range_start` walks the resource chunk by chunk.
pub struct ChunkedRangeReader {
    total_length: u64,
    chunk_size: u64,
    next_range_start: u64,
    fetches: u64,
    buffer: Vec<u8>,
    cursor: usize,
    source: SwappableSource,
    dec: PersistentDecompressor,
    failed: bool,
    supplied: Ghost<Seq<u8>>,
    delivered: Ghost<Seq<u8>>,
}

impl ChunkedRangeReader {
    /// Compressed length of the resource, learned from the discovery fetch.
    pub closed spec fn total_len(self) -> u64 {
        self.total_length
    }

    /// Upper bound on the size of one fetched chunk.
    pub closed spec fn chunk_len(self) -> u64 {
        self.chunk_size
    }

    /// The compressed cursor: the first byte index not yet covered by a fetch.
    pub closed spec fn next_start(self) -> u64 {
        self.next_range_start
    }

    /// How many fetches have happened, the discovery probe included.
    pub closed spec fn fetch_count(self) -> u64 {
        self.fetches
    }

    /// Every compressed byte handed in so far: the probe body, then each
    /// supplied chunk, in order.
    pub closed spec fn supplied_bytes(self) -> Seq<u8> {
        self.supplied@
    }

    /// Every decompressed byte handed out so far, in order.
    pub closed spec fn delivered_bytes(self) -> Seq<u8> {
        self.delivered@
    }

    /// The compressed prefix the decompressor has consumed.
    pub closed spec fn consumed_bytes(self) -> Seq<u8> {
        self.dec.fed()
    }

    /// Decoded bytes buffered but not yet delivered.
    pub closed spec fn pending(self) -> Seq<u8> {
        self.buffer@.skip(self.cursor as int)
    }

    /// Whether a fatal error has been surfaced.
    pub closed spec fn is_failed(self) -> bool {
        self.failed
    }

    /// Whether the decompressor reached the end of the gzip stream.
    pub closed spec fn stream_finished(self) -> bool {
        self.dec.is_finished()
    }

    /// Whether the decompressor found the compressed data malformed.
    pub closed spec fn found_corrupt(self) -> bool {
        self.dec.is_corrupt()
    }

    /// Every compressed byte index is covered by a past fetch.
    pub open spec fn fully_fetched(self) -> bool {
        self.next_start() >= self.total_len()
    }

    /// The reader's invariant.
    ///
    /// Besides well-formedness of the parts, it carries the three facts the
    /// public contracts rest on: what was delivered plus what is buffered is
    /// exactly what the decompressor produced; what the decompressor consumed
    /// is a prefix of what was supplied (all of it, as long as the gzip
    /// stream has not ended); and the fetch count always complements the
    /// fetches still to come.
    pub closed spec fn inv(self) -> bool {
        &&& self.cursor <= self.buffer@.len()
        &&& self.source.wf()
        &&& self.dec.wf()
        &&& self.total_length >= 1
        &&& self.chunk_size >= 1
        &&& initial_cursor(self.total_length as int, PROBE_SIZE as int)
            <= self.next_range_start as int <= self.total_length as int
        &&& self.fetches as int + chunks_remaining(
            self.next_range_start as int,
            self.total_length as int,
            self.chunk_size as int,
        ) == total_fetches(
            self.total_length as int,
            PROBE_SIZE as int,
            self.chunk_size as int,
        )
        &&& !self.dec.is_corrupt() ==> {
            &&& self.dec.fed().len() <= self.supplied@.len()
            &&& self.dec.fed() == self.supplied@.take(self.dec.fed().len() as int)
            &&& self.delivered@ + self.pending() == self.dec.emitted()
        }
        &&& !self.dec.is_corrupt() && !self.dec.is_finished() ==> {
            &&& self.dec.fed() == self.supplied@
            &&& self.source.remaining().len() == 0
        }
    }

    /// Law: once the gzip stream has ended and the buffer is drained, the
    /// bytes delivered are exactly the decompression of the compressed prefix
    /// consumed, itself a prefix of everything supplied — so pulling until
    /// `Done` reproduces the resource's decompression byte for byte, whatever
    /// the resource length and chunk size.
    pub proof fn lemma_complete_delivery(self)
        requires
            self.inv(),
            !self.found_corrupt(),
            self.stream_finished(),
            self.pending().len() == 0,
        ensures
            self.delivered_bytes() == gunzip(self.consumed_bytes()),
            self.consumed_bytes() == self.supplied_bytes().take(self.consumed_bytes().len() as int),
            self.delivered_bytes() == gunzip(self.supplied_bytes()),
    {
        assert_seqs_equal!(self.delivered_bytes() == self.delivered_bytes() + self.pending());
        let fed = self.dec.fed();
        let ext = self.supplied_bytes().skip(fed.len() as int);
        assert(gunzip(fed + ext) == gunzip(fed));
        assert_seqs_equal!(fed + ext == self.supplied_bytes());
    }

    /// Law: when nothing supplied was rejected and everything supplied forms
    /// a complete gzip stream, the decompressor has necessarily reported
    /// stream end — so with the buffer drained and the resource fully
    /// fetched, the next pull reports `Done`, never an error.
    pub proof fn lemma_complete_stream_finishes(self)
        requires
            self.inv(),
            !self.found_corrupt(),
            gzip_ended(self.supplied_bytes()),
        ensures
            self.stream_finished(),
    {
    }

    /// Law: once every compressed byte index is covered by a fetch, the fetch
    /// count is the total the plan predicts; for a resource longer than the
    /// probe window that is `ceil((total - probe) / chunk) + 1`, the `+ 1`
    /// being the discovery probe.
    pub proof fn lemma_fetch_count_complete(self)
        requires
            self.inv(),
            self.fully_fetched(),
        ensures
            self.fetch_count() as int == total_fetches(
                self.total_len() as int,
                PROBE_SIZE as int,
                self.chunk_len() as int,
            ),
            self.total_len() > PROBE_SIZE ==> self.fetch_count() as int == (self.total_len()
                - PROBE_SIZE + self.chunk_len() - 1) as int / (self.chunk_len() as int) + 1,
    {
        if self.total_len() > PROBE_SIZE {
            lemma_fetch_count_long(
                self.total_len() as int,
                PROBE_SIZE as int,
                self.chunk_len() as int,
            );
        }
    }

    /// A resource no longer than the discovery probe never takes more than
    /// that single fetch: however the reader has been driven, its fetch count
    /// is still one, and nothing remains to fetch.
    pub proof fn lemma_short_resource_single_fetch(self)
        requires
            self.inv(),
            self.total_len() <= PROBE_SIZE,
        ensures
            self.fetch_count() == 1,
            self.fully_fetched(),
    {
        lemma_fetch_count_short(
            self.total_len() as int,
            PROBE_SIZE as int,
            self.chunk_len() as int,
        );
    }

    /// Start streaming a resource: validate the discovery response and run the
    /// first decode pass over the probe's bytes.
    ///
    /// `header` is the discovery response's content-range header, if it had
    /// one, and `probe_body` that response's body. Without a header that
    /// parses to a non-zero total length, the resource cannot be streamed at
    /// all: the result is a `Protocol` error and nothing is fetched.
    pub fn start(header: Option<&Vec<u8>>, probe_body: Vec<u8>, chunk_size: u64) -> (r: Result<
        ChunkedRangeReader,
        StreamError,
    >)
        requires
            chunk_size >= 1,
        ensures
            r is Ok <==> (header matches Some(h) && well_formed(h@) && first_value(h@)
                <= u64::MAX && last_value(h@) <= u64::MAX && 1 <= total_value(h@) <= u64::MAX),
            r matches Err(e) ==> e == StreamError::Protocol,
            r matches Ok(rd) ==> {
                &&& rd.inv()
                &&& header matches Some(h) && rd.total_len() as int == total_value(h@)
                &&& rd.chunk_len() == chunk_size
                &&& rd.supplied_bytes() == probe_body@
                &&& rd.delivered_bytes() == Seq::<u8>::empty()
                &&& rd.fetch_count() == 1
                &&& !rd.is_failed()
                &&& rd.next_start() as int == initial_cursor(rd.total_len() as int, PROBE_SIZE as int)
                &&& (rd.total_len() <= PROBE_SIZE ==> rd.fully_fetched())
                &&& (rd.found_corrupt() ==> !gzip_prefix_ok(probe_body@))
                &&& (!rd.found_corrupt() && !rd.stream_finished() ==> rd.consumed_bytes()
                    == rd.supplied_bytes())
            },
    {
        let h = match header {
            Option::None => {
                return Result::Err(StreamError::Protocol);
            },
            Option::Some(h) => h,
        };
        let cr = match parse_content_range(h) {
            Option::None => {
                return Result::Err(StreamError::Protocol);
            },
            Option::Some(cr) => cr,
        };
        if cr.total == 0 {
            return Result::Err(StreamError::Protocol);
        }
        let total = cr.total;
        let init = if PROBE_SIZE <= total {
            PROBE_SIZE
        } else {
            total
        };
        let ghost probe_view = probe_body@;
        let mut source = SwappableSource::new();
        source.install(probe_body);
        let mut dec = PersistentDecompressor::new();
        let out = dec.decode_pass(&mut source);
        proof {
            assert_seqs_equal!(out@.skip(0) == out@);
            if dec.is_corrupt() {
                assert_seqs_equal!(Seq::<u8>::empty() + probe_view.skip(0) == probe_view);
            } else {
                assert_seqs_equal!(dec.fed() == probe_view.take(dec.fed().len() as int));
                assert_seqs_equal!(Seq::<u8>::empty() + out@ == dec.emitted());
                if !dec.is_finished() {
                    assert_seqs_equal!(dec.fed() == probe_view);
                }
            }
        }
        Result::Ok(
            ChunkedRangeReader {
                total_length: total,
                chunk_size,
                next_range_start: init,
                fetches: 1,
                buffer: out,
                cursor: 0,
                source,
                dec,
                failed: false,
                supplied: Ghost(probe_view),
                delivered: Ghost(Seq::<u8>::empty()),
            },
        )
    }

    /// Pull up to `max` decompressed bytes.
    ///
    /// Buffered bytes are always served first, whatever the decoder reported
    /// while producing them: an error is surfaced only once the buffer is
    /// exhausted. With the buffer empty, the reader decides what comes next:
    /// more of the resource remains, so fetch the next chunk (`NeedChunk`);
    /// or everything is fetched and the gzip stream ended cleanly (`Done`,
    /// terminal and repeatable, never an error); or everything is fetched yet
    /// the stream did not end — the data was truncated or malformed, a fatal
    /// `Decode` error.
    #[verifier::loop_isolation(false)]
    pub fn pull(&mut self, max: usize) -> (r: Result<Pulled, StreamError>)
        requires
            old(self).inv(),
        ensures
            final(self).inv(),
            final(self).total_len() == old(self).total_len(),
            final(self).chunk_len() == old(self).chunk_len(),
            final(self).next_start() == old(self).next_start(),
            final(self).fetch_count() == old(self).fetch_count(),
            final(self).supplied_bytes() == old(self).supplied_bytes(),
            final(self).stream_finished() == old(self).stream_finished(),
            final(self).found_corrupt() == old(self).found_corrupt(),
            final(self).consumed_bytes() == old(self).consumed_bytes(),
            old(self).is_failed() ==> r == Result::<Pulled, StreamError>::Err(StreamError::Decode)
                && *final(self) == *old(self),
            !old(self).is_failed() && old(self).pending().len() > 0 ==> {
                &&& r matches Result::Ok(p)
                &&& p matches Pulled::Data(d)
                &&& d@ == old(self).pending().take(min_int(max as int, old(self).pending().len() as int))
                &&& final(self).pending() == old(self).pending().skip(d@.len() as int)
                &&& final(self).delivered_bytes() == old(self).delivered_bytes() + d@
                &&& !final(self).is_failed()
            },
            !old(self).is_failed() && old(self).pending().len() == 0 ==> {
                &&& final(self).pending() == old(self).pending()
                &&& final(self).delivered_bytes() == old(self).delivered_bytes()
            },
            !old(self).is_failed() && old(self).pending().len() == 0 && old(self).found_corrupt()
                ==> {
                &&& r == Result::<Pulled, StreamError>::Err(StreamError::Decode)
                &&& final(self).is_failed()
            },
            !old(self).is_failed() && old(self).pending().len() == 0 && !old(self).found_corrupt()
                && !old(self).fully_fetched() ==> {
                &&& r == Result::<Pulled, StreamError>::Ok(
                    Pulled::NeedChunk(
                        old(self).next_start(),
                        ((min_int(
                            old(self).next_start() as int + old(self).chunk_len() as int,
                            old(self).total_len() as int,
                        ) - 1) as u64),
                    ),
                )
                &&& !final(self).is_failed()
            },
            !old(self).is_failed() && old(self).pending().len() == 0 && !old(self).found_corrupt()
                && old(self).fully_fetched() && old(self).stream_finished() ==> {
                &&& r == Result::<Pulled, StreamError>::Ok(Pulled::Done)
                &&& *final(self) == *old(self)
            },
            !old(self).is_failed() && old(self).pending().len() == 0 && !old(self).found_corrupt()
                && old(self).fully_fetched() && !old(self).stream_finished() ==> {
                &&& r == Result::<Pulled, StreamError>::Err(StreamError::Decode)
                &&& final(self).is_failed()
            },
            r matches Result::Err(e) ==> e == StreamError::Decode && final(self).is_failed(),
            r matches Result::Ok(Pulled::Data(d)) ==> {
                &&& !final(self).is_failed()
                &&& final(self).delivered_bytes() == old(self).delivered_bytes() + d@
                &&& d@.len() <= max
            },
            r matches Result::Ok(Pulled::NeedChunk(s, e)) ==> {
                &&& !final(self).is_failed()
                &&& !final(self).found_corrupt()
                &&& final(self).pending().len() == 0
                &&& !final(self).fully_fetched()
                &&& s == final(self).next_start()
                &&& e as int == min_int(
                    final(self).next_start() as int + final(self).chunk_len() as int,
                    final(self).total_len() as int,
                ) - 1
            },
            r == Result::<Pulled, StreamError>::Ok(Pulled::Done) ==> {
                &&& !final(self).is_failed()
                &&& !final(self).found_corrupt()
                &&& final(self).stream_finished()
                &&& final(self).fully_fetched()
                &&& final(self).pending().len() == 0
                &&& final(self).delivered_bytes() == gunzip(final(self).consumed_bytes())
                &&& final(self).delivered_bytes() == gunzip(final(self).supplied_bytes())
                &&& final(self).consumed_bytes() == final(self).supplied_bytes().take(
                    final(self).consumed_bytes().len() as int,
                )
                &&& final(self).fetch_count() as int == total_fetches(
                    final(self).total_len() as int,
                    PROBE_SIZE as int,
                    final(self).chunk_len() as int,
                )
            },
    {
        if self.failed {
            return Result::Err(StreamError::Decode);
        }
        let len = self.buffer.len();
        if self.cursor < len {
            let n = if max < len - self.cursor {
                max
            } else {
                len - self.cursor
            };
            let mut data: Vec<u8> = Vec::new();
            let mut t: usize = 0;
            while t < n
                invariant
                    t <= n,
                    n <= len - self.cursor,
                    data@ == self.buffer@.subrange(self.cursor as int, self.cursor + t),
                decreases n - t,
            {
                let b = self.buffer[self.cursor + t];
                data.push(b);
                proof {
                    assert_seqs_equal!(
                        data@ == self.buffer@.subrange(self.cursor as int, self.cursor + t + 1)
                    );
                }
                t = t + 1;
            }
            self.cursor = self.cursor + n;
            proof {
                assert_seqs_equal!(
                    data@ == old(self).pending().take(
                        min_int(max as int, old(self).pending().len() as int))
                );
                assert_seqs_equal!(
                    self.buffer@.skip(self.cursor as int)
                        == old(self).pending().skip(data@.len() as int)
                );
                if !self.dec.is_corrupt() {
                    assert_seqs_equal!(
                        (old(self).delivered_bytes() + data@) + self.pending()
                            == self.dec.emitted()
                    );
                }
            }
            self.delivered = Ghost(self.delivered@ + data@);
            return Result::Ok(Pulled::Data(data));
        }
        if self.dec.corrupt() {
            self.failed = true;
            return Result::Err(StreamError::Decode);
        }
        if self.next_range_start < self.total_length {
            let end = next_chunk_end(self.next_range_start, self.total_length, self.chunk_size);
            return Result::Ok(Pulled::NeedChunk(self.next_range_start, end));
        }
        if self.dec.finished() {
            proof {
                assert_seqs_equal!(self.delivered@ == self.delivered@ + self.pending());
                let fed = self.dec.fed();
                let ext = self.supplied@.skip(fed.len() as int);
                assert(gunzip(fed + ext) == gunzip(fed));
                assert_seqs_equal!(fed + ext == self.supplied@);
            }
            return Result::Ok(Pulled::Done);
        }
        self.failed = true;
        Result::Err(StreamError::Decode)
    }

    /// Install a fetched chunk and decode as much of it as possible.
    ///
    /// To be called exactly when `pull` asked for a chunk: the decoded buffer
    /// is exhausted, no error has surfaced, and part of the resource is still
    /// unfetched. The cursor advances by the planned chunk size whatever the
    /// chunk's actual length, so a truncated fetch simply leaves the
    /// decompressor short of bytes — which the next pull surfaces as either
    /// the next `NeedChunk` or, at the end of the resource, a `Decode` error.
    pub fn supply_chunk(&mut self, chunk: Vec<u8>)
        requires
            old(self).inv(),
            !old(self).is_failed(),
            !old(self).found_corrupt(),
            old(self).pending().len() == 0,
            !old(self).fully_fetched(),
        ensures
            final(self).inv(),
            final(self).total_len() == old(self).total_len(),
            final(self).chunk_len() == old(self).chunk_len(),
            final(self).supplied_bytes() == old(self).supplied_bytes() + chunk@,
            final(self).delivered_bytes() == old(self).delivered_bytes(),
            final(self).fetch_count() == old(self).fetch_count() + 1,
            final(self).next_start() as int == min_int(
                old(self).next_start() as int + old(self).chunk_len() as int,
                old(self).total_len() as int,
            ),
            !final(self).is_failed(),
            old(self).stream_finished() ==> final(self).stream_finished(),
            final(self).found_corrupt() ==> !gzip_prefix_ok(old(self).consumed_bytes() + chunk@),
            !final(self).found_corrupt() && !final(self).stream_finished()
                ==> final(self).consumed_bytes() == final(self).supplied_bytes(),
    {
        proof {
            lemma_chunks_remaining_bounds(
                self.next_range_start as int,
                self.total_length as int,
                self.chunk_size as int,
            );
            lemma_chunks_remaining_bounds(
                initial_cursor(self.total_length as int, PROBE_SIZE as int),
                self.total_length as int,
                self.chunk_size as int,
            );
        }
        let ghost supplied_old = self.supplied@;
        let ghost fed_old = self.dec.fed();
        let ghost chunk_view = chunk@;
        self.source.install(chunk);
        proof {
            self.supplied@ = supplied_old + chunk_view;
        }
        self.next_range_start = advance_cursor(
            self.next_range_start,
            self.total_length,
            self.chunk_size,
        );
        self.fetches = self.fetches + 1;
        if !self.dec.finished() {
            let out = self.dec.decode_pass(&mut self.source);
            proof {
                assert_seqs_equal!(out@.skip(0) == out@);
                if self.dec.is_corrupt() {
                    assert_seqs_equal!(fed_old + chunk_view.skip(0) == fed_old + chunk_view);
                }
                if !self.dec.is_corrupt() {
                    assert_seqs_equal!(
                        self.dec.fed() == self.supplied@.take(self.dec.fed().len() as int)
                    );
                    assert_seqs_equal!(
                        old(self).delivered_bytes() + out@ == self.dec.emitted()
                    );
                    if !self.dec.is_finished() {
                        assert_seqs_equal!(self.dec.fed() == self.supplied@);
                    }
                }
            }
            self.buffer = out;
            self.cursor = 0;
        } else {
            proof {
                assert_seqs_equal!(
                    self.dec.fed() == self.supplied@.take(self.dec.fed().len() as int)
                );
                assert_seqs_equal!(
                    old(self).delivered_bytes() + Seq::<u8>::empty() == self.dec.emitted()
                );
            }
            self.buffer = Vec::new();
            self.cursor = 0;
        }
    }
}

} // verus!
