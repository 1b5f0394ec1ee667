//! Orchestration logic for claiming a daily reward on a batch of accounts.
//!
//! The crate holds the decisions of the claimer: how a batch of accounts is
//! handed out to a fixed pool of workers, how the progress record evolves
//! while they work, and how the single browser-driver process is supervised.
//! Everything here is a function from plain values to plain values; the caller
//! performs the actions (spawning processes, driving the browser, publishing
//! snapshots) and reports back what happened.

pub mod claimer;
pub mod dto;
pub mod error;
pub mod panic;
pub mod state;
pub mod text;
