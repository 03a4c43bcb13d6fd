//! The error surface a caller of the library sees.

use vstd::prelude::*;

verus! {

/// Why a streamed read failed.
///
/// `Transport` is never produced by the library itself: it is reserved for the
/// caller's fetch layer (a non-success HTTP status, a connection failure).
/// `Protocol` means the resource's total length could not be established from
/// the discovery response. `Decode` means the compressed data is genuinely
/// malformed, or ran out where no further chunk could resolve it.
#[derive(Clone, Copy, Debug, PartialEq, Eq, Structural)]
pub enum StreamError {
    Transport,
    Protocol,
    Decode,
}

} // verus!
