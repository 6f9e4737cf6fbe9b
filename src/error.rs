use vstd::prelude::*;

verus! {

/// Why decoding a PE image stopped.
#[derive(Debug, Clone, Copy, PartialEq, Eq, Structural)]
pub enum PeError {
    /// Fewer bytes remain than a field or record needs.
    Truncated,
    /// The offset of the NT head is negative or lies outside the input.
    SeekOutOfRange,
    /// The NT signature is not `PE\0\0`.
    BadSignature,
}

} // verus!
