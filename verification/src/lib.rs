//! Streaming decompression of a remote gzip resource fetched through bounded
//! byte-range requests.
//!
//! The transport only hands out finite chunks of the compressed resource,
//! while the decompressor wants one continuous input stream.  The library
//! bridges the two: a [`source::SwappableSource`] holds the bytes of the
//! chunk currently being decoded and can be refilled between decode passes, a
//! [`decoder::PersistentDecompressor`] is constructed once per resource and
//! decodes whatever the source currently holds, and a
//! [`reader::ChunkedRangeReader`] orchestrates the two, telling its caller
//! which byte range to fetch next and serving decompressed bytes on demand.
//! Performing the actual HTTP range requests is the caller's business; the
//! library works on the plain bytes that come back.

use vstd::prelude::*;

pub mod content_range;
pub mod decoder;
pub mod errors;
pub mod inflate;
pub mod plan;
pub mod reader;
pub mod source;

verus! {

/// Size in bytes of the discovery probe: the first range request, whose only
/// purpose is learning the resource's total length and bootstrapping the
/// decompressor.
pub const PROBE_SIZE: u64 = 1024;

/// Default upper bound on the size of one fetched chunk: 1 MiB.
pub const MAX_CHUNK_SIZE: u64 = 1024 * 1024;

} // verus!
