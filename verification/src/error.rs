//! Failures reported by the attribute codec.

use vstd::prelude::*;

verus! {

/// Why a decode or an encode did not succeed.
#[derive(Debug, Clone, Copy, PartialEq, Eq, Structural)]
pub enum BgpError {
    /// The payload handed to a decoder has a length that no address has.
    /// Carries the offending length.
    InvalidLength(usize),
    /// The buffer handed to an encoder is shorter than what must be written.
    BufferTooSmall,
}

} // verus!
