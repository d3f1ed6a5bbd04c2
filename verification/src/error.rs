//! Error conditions of the compiler core.
//!
//! All of these are unrecoverable for the program being compiled; the
//! library surfaces them as values so that callers decide how to abort.

use vstd::prelude::*;

verus! {

/// Every failure the core can detect.
#[derive(Clone, Copy, Debug, PartialEq, Eq, Structural)]
pub enum JitError {
    /// An append was attempted after the buffer was finalized.
    Locked,
    /// An append would have written past the fixed capacity of the region.
    CapacityExceeded,
    /// A byte in the program line is not a supported operator token.
    InvalidOperator,
    /// Interpreting a division whose result the hardware cannot produce:
    /// a zero divisor, or the one quotient that overflows 64 bits.
    DivisionFault,
}

} // verus!
