//! Synchronisation between tasks.
pub mod mpmc;
