//! The chunking plan: which compressed byte range to fetch next, and how many
//! fetches a resource of a given length takes.
//!
//! Ranges are inclusive byte index pairs `[start, end]`. Chunk boundaries are
//! aligned to the chunk size, independent of gzip member boundaries; coping
//! with members that straddle a fetch boundary is the decompressor's job.

use vstd::prelude::*;

verus! {

/// Smallest of two integers.
pub open spec fn min_int(a: int, b: int) -> int {
    if a <= b {
        a
    } else {
        b
    }
}

/// How many chunk fetches are still to come when the compressed cursor stands
/// at `next` in a resource of `total` bytes, fetching at most `c` bytes at a
/// time: one fetch per step of `c` until the cursor reaches `total`.
pub open spec fn chunks_remaining(next: int, total: int, c: int) -> int
    decreases total - next,
{
    if c >= 1 && next < total {
        1 + chunks_remaining(next + min_int(c, total - next), total, c)
    } else {
        0
    }
}

/// The number of remaining fetches has the closed form
/// `ceil((total - next) / c)`.
pub proof fn lemma_chunks_remaining_ceil(next: int, total: int, c: int)
    requires
        c >= 1,
        next <= total,
    ensures
        chunks_remaining(next, total, c) == (total - next + c - 1) / c,
    decreases total - next,
{
    if next < total {
        let step = min_int(c, total - next);
        lemma_chunks_remaining_ceil(next + step, total, c);
        if total - next <= c {
            assert((total - next + c - 1) / c == 1) by (nonlinear_arith)
                requires
                    c >= 1,
                    1 <= total - next <= c,
            ;
        } else {
            assert((total - next + c - 1) / c == 1 + (total - (next + c) + c - 1) / c)
                by (nonlinear_arith)
                requires
                    c >= 1,
                    total - next > c,
            ;
        }
    } else {
        assert((c - 1) / c == 0) by (nonlinear_arith)
            requires
                c >= 1,
        ;
    }
}

/// There is at least one fetch per remaining byte span, and at most one per
/// byte: the remaining fetch count lies between 0 and `total - next`.
pub proof fn lemma_chunks_remaining_bounds(next: int, total: int, c: int)
    requires
        c >= 1,
        next <= total,
    ensures
        0 <= chunks_remaining(next, total, c) <= total - next,
    decreases total - next,
{
    if next < total {
        lemma_chunks_remaining_bounds(next + min_int(c, total - next), total, c);
    }
}

/// Where the compressed cursor begins: the discovery probe already covers the
/// first `probe` bytes, or the whole resource when it is shorter than the
/// probe window.
pub open spec fn initial_cursor(total: int, probe: int) -> int {
    min_int(probe, total)
}

/// Total number of fetches to stream a resource of `total` compressed bytes
/// with probe window `probe` and chunk size `c`: the discovery probe plus one
/// fetch per remaining chunk.
pub open spec fn total_fetches(total: int, probe: int, c: int) -> int {
    1 + chunks_remaining(initial_cursor(total, probe), total, c)
}

/// The fetch count for a resource longer than the probe window is
/// `ceil((total - probe) / c) + 1`, the `+ 1` being the discovery probe.
pub proof fn lemma_fetch_count_long(total: int, probe: int, c: int)
    requires
        c >= 1,
        total > probe >= 0,
    ensures
        total_fetches(total, probe, c) == (total - probe + c - 1) / c + 1,
{
    lemma_chunks_remaining_ceil(probe, total, c);
}

/// A resource no longer than the probe window takes exactly one fetch: the
/// probe itself already covers it.
pub proof fn lemma_fetch_count_short(total: int, probe: int, c: int)
    requires
        c >= 1,
        0 <= total <= probe,
    ensures
        total_fetches(total, probe, c) == 1,
{
}

/// The inclusive end of the next chunk's byte range: `c` bytes from `next`,
/// clamped to the last byte of the resource.
pub fn next_chunk_end(next: u64, total: u64, c: u64) -> (end: u64)
    requires
        next < total,
        c >= 1,
    ensures
        end as int == min_int(next as int + c as int, total as int) - 1,
        next <= end < total,
{
    if total - 1 - next < c - 1 {
        total - 1
    } else {
        next + (c - 1)
    }
}

/// The cursor after fetching one chunk: advanced past the chunk's end.
pub fn advance_cursor(next: u64, total: u64, c: u64) -> (r: u64)
    requires
        next < total,
        c >= 1,
    ensures
        r as int == min_int(next as int + c as int, total as int),
        next < r <= total,
        chunks_remaining(r as int, total as int, c as int) == chunks_remaining(
            next as int,
            total as int,
            c as int,
        ) - 1,
{
    if total - next <= c {
        total
    } else {
        next + c
    }
}

} // verus!
