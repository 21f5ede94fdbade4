//! Bridges between a work-stealing thread pool and cooperatively polled
//! futures and streams.
//!
//! Three primitives are offered: a single task run on the pool and awaited as
//! a future, a parallel iterator drained as an unordered stream, and a stream
//! combinator that maps every item on the pool while keeping the order of the
//! items. None of them ever blocks the polling thread, and dropping any of
//! them never disturbs the pool.

pub mod drain;
pub mod handoff;
pub mod par_iter_stream;
pub mod prelude;
pub mod rayon_future;
pub mod stream;
