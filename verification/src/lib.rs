//! A small test-execution and assertion engine.
//!
//! A session collects the outcome of every check in counters and in a transcript of
//! laid-out lines; nothing here writes to a terminal, sleeps or awaits. The caller
//! prints the transcript, runs the hooks in the order the session gives, and turns the
//! final status into an exit code.
//!
//! [`anima`] holds the engine. [`soul`] holds a graph of notes that shares the crate
//! and nothing else with it.

pub mod anima;
pub mod soul;
