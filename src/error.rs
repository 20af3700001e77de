//! Errors reported by the frame codec.

use vstd::prelude::*;

verus! {

/// Why an IDTP operation could not be carried out.
#[derive(Debug, Clone, Copy, PartialEq, Eq, Structural)]
pub enum IdtpError {
    /// The destination buffer cannot hold header, payload and trailer.
    BufferTooSmall,
    /// The payload is longer than the largest payload a packet can carry.
    PayloadTooLarge,
    /// The input is shorter than the structure that is decoded from it.
    TruncatedInput,
}

} // verus!
