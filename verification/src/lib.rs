//! A soft, process-wide memory budget laid over an existing allocator.
//!
//! A [`BoundAlloc`] stands between a program and the allocator that it
//! wraps. It keeps the bytes that are live and the most that were ever live,
//! and after each allocation it tells its caller what to do: hand the block
//! out, run the overflow policy, or block for good. The overflow policy is
//! run once, by the one execution that first claims the overflow, and
//! overflow is terminal.
//!
//! - [`bound_alloc`]: the budget itself, on atomics.
//! - [`policy`]: what a call ends in, decided from what it read.
//! - [`usage`]: the counters as mathematics, and as a model that runs.
//! - [`laws`]: what is proved of the counters.
//! - [`once`]: what is taken on trust of the write-once cell.

pub mod bound_alloc;
pub mod laws;
pub mod once;
pub mod policy;
pub mod usage;

pub use bound_alloc::BoundAlloc;
pub use policy::{default_overflow_handler, handler_returned, AllocAction, Sighting};
pub use usage::{Op, Request, Usage};
