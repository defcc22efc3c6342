//! A cooperative, single-threaded task scheduler core.
//!
//! The crate holds the scheduler's data structures and decisions: an
//! intrusive doubly-linked queue whose nodes live in an arena and refer to
//! each other by slot number, a cell that is only reachable with a
//! critical-section token, the ready queue and per-task state machine of the
//! runtime, and a rendezvous channel built from the same queue.
//!
//! All shared state lives in cells that open only to a
//! `critical_section::CriticalSection` token. The queue and the cell take the
//! token from their caller; the runtime and the channel enter the critical
//! section themselves, one short section for each step.
//!
//! Advancing a computation and idling the processor are the host's work; the
//! crate decides what is advanced next and what each outcome does to the
//! queues.
pub mod cell;
pub mod interrupt;
pub mod linked_list;
pub mod mutex;
pub mod non_null;
pub mod sync;
pub mod task;

pub use task::JoinHandle;
pub use task::Runtime;
pub use task::Task;
