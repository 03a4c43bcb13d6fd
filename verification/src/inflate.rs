//! The trusted boundary around flate2's low-level gzip decompressor.
//!
//! Everything the library knows about decompression is stated here, over two
//! uninterpreted views of a `flate2::Decompress` object — the compressed bytes
//! it has consumed and the plain bytes it has produced — and three
//! uninterpreted functions of byte sequences alone: `gunzip`, the plain bytes
//! a compressed prefix determines; `gzip_prefix_ok`, whether the decompressor
//! accepts those bytes; and `gzip_ended`, whether they form one complete gzip
//! stream.

use vstd::prelude::*;

verus! {

#[verifier::external_type_specification]
#[verifier::external_body]
pub struct ExDecompress(flate2::Decompress);

/// The plain bytes determined by the compressed prefix `c` of a gzip stream:
/// what a decompressor that has consumed exactly `c` can output in total.
pub uninterp spec fn gunzip(c: Seq<u8>) -> Seq<u8>;

/// Whether the decompressor accepts the bytes `c` as the start of a gzip
/// stream: consuming them, in any number of steps, raises no data error.
pub uninterp spec fn gzip_prefix_ok(c: Seq<u8>) -> bool;

/// Whether consuming exactly the bytes `c` leaves the decompressor at stream
/// end: `c` is one complete gzip stream.
pub uninterp spec fn gzip_ended(c: Seq<u8>) -> bool;

/// The compressed bytes this decompressor has consumed so far.
pub uninterp spec fn inflate_fed(d: flate2::Decompress) -> Seq<u8>;

/// The plain bytes this decompressor has produced so far.
pub uninterp spec fn inflate_emitted(d: flate2::Decompress) -> Seq<u8>;

/// One decompression step's outcome.
pub struct InflateStep {
    /// How many input bytes the decompressor consumed.
    pub consumed: usize,
    /// The plain bytes it produced.
    pub output: Vec<u8>,
    /// Whether it reached the end of the gzip stream.
    pub end: bool,
}

/// Relies on flate2::Decompress::new_gzip: a fresh decompressor that expects a
/// gzip header and has consumed and produced nothing — so it is not at stream
/// end, an empty input being no complete gzip stream.
#[verifier::external_body]
pub(crate) fn inflater_new() -> (d: flate2::Decompress)
    ensures
        inflate_fed(d) == Seq::<u8>::empty(),
        inflate_emitted(d) == Seq::<u8>::empty(),
        !gzip_ended(inflate_fed(d)),
{
    flate2::Decompress::new_gzip(15)
}

/// Relies on flate2::Decompress::decompress_vec: it consumes a prefix of the
/// input it is given and appends to the output vector the plain bytes that the
/// consumed compressed bytes determine; it reports stream end exactly when the
/// consumed bytes form a complete gzip stream, whose determined output no
/// further input can extend; it errs only on malformed data, so an error means
/// the bytes on offer are no acceptable continuation; and it always makes
/// progress while input remains and the stream has not ended (the fixed fresh
/// output capacity is never the obstacle at zero bytes produced).
#[verifier::external_body]
pub(crate) fn inflate_step(d: &mut flate2::Decompress, input: &Vec<u8>, from: usize) -> (r: Result<
    InflateStep,
    (),
>)
    requires
        from <= input@.len(),
    ensures
        r matches Ok(s) ==> {
            &&& s.consumed <= input@.len() - from
            &&& inflate_fed(*final(d)) == inflate_fed(*old(d)) + input@.subrange(
                from as int,
                from + s.consumed,
            )
            &&& inflate_emitted(*final(d)) == inflate_emitted(*old(d)) + s.output@
            &&& inflate_emitted(*final(d)).len() <= gunzip(inflate_fed(*final(d))).len()
            &&& inflate_emitted(*final(d)) == gunzip(inflate_fed(*final(d))).take(inflate_emitted(*final(d)).len() as int)
            &&& (s.end ==> inflate_emitted(*final(d)) == gunzip(inflate_fed(*final(d))))
            &&& s.end == gzip_ended(inflate_fed(*final(d)))
            &&& (s.end ==> forall|ext: Seq<u8>|
                gunzip(inflate_fed(*final(d)) + ext) == gunzip(inflate_fed(*final(d))))
            &&& (s.consumed > 0 || s.output@.len() > 0 || s.end || input@.len() - from == 0)
        },
        r is Err ==> !gzip_prefix_ok(inflate_fed(*old(d)) + input@.skip(from as int)),
{
    let mut output: Vec<u8> = Vec::with_capacity(32 * 1024);
    let before = d.total_in();
    let status = d.decompress_vec(&input[from..], &mut output, flate2::FlushDecompress::None);
    match status {
        Ok(s) => Ok(InflateStep {
            consumed: (d.total_in() - before) as usize,
            output,
            end: matches!(s, flate2::Status::StreamEnd),
        }),
        Err(_) => Err(()),
    }
}

} // verus!
