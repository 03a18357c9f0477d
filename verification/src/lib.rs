//! Verified core of a chunked file-upload pipeline.
//!
//! A local file is probed into a plan of consecutive chunks, streamed to a
//! remote endpoint one chunk at a time, and reported to an observer after
//! every chunk; the observer can cooperatively cancel the transfer, which is
//! honoured at the next chunk boundary. The driver here is pure: the outside
//! world (network sends, the shared cancellation flag, the clock) enters as
//! per-chunk outcomes, so every decision the pipeline makes is verified for
//! every possible behaviour of that world.

pub mod driver;
pub mod plan;
pub mod progress;
pub mod transfer;
