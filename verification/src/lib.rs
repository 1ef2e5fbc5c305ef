//! Core of an automated purchase runner: a round-robin proxy pool, a
//! five-phase retrying task state machine, and the pure decision logic
//! that classifies remote responses and aggregates task outcomes.
//! All I/O (HTTP, files, timers) lives outside this crate.

pub mod errors;
pub mod machine;
pub mod orchestrator;
pub mod proxy;
pub mod responses;
pub mod task;
pub mod text;

pub use errors::Error;
