//! Verified core of a polyphonic keyboard synthesizer: note encoding,
//! fixed-pool voice allocation with round-robin stealing, pitch-bend
//! bookkeeping, key-matrix edge detection, and the double-buffer sample
//! stream discipline.
//!
//! All frequencies are carried as integers in millihertz and the pitch-bend
//! ratio as an integer numerator over a fixed denominator, so that every
//! contract is exact; conversion to the floating-point values consumed by an
//! audio back end is left to unverified callers.

pub mod notes;
pub mod keyboard;
pub mod stream;
