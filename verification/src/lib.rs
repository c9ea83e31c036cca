//! A minimal cooperative task executor with a readiness-based socket reactor.
//!
//! The crate is split along the runtime's seams:
//! - [`reactor`] models the process-wide reactor: the per-direction waiter
//!   maps, the drain-then-close set, and the background loop's decisions.
//! - [`sock`] holds the per-operation state machines of the non-blocking
//!   socket handles (`accept`, `read_bytes`, `write_bytes`, listener setup).
//! - [`sched`] is the scheduler: a FIFO submission queue of runnable tasks.
//! - [`line`] is the line-buffered reader layered over `read_bytes`.
//!
//! The OS calls themselves (sockets, `poll`, threads, wakers) live with the
//! embedding program; every decision taken on their results is made here,
//! on plain values, under contract.

pub mod line;
pub mod reactor;
pub mod sched;
pub mod sock;
