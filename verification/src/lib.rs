//! A reversible kill switch for Dropbox on macOS.
//!
//! This crate holds the verified core of the tool: the state and
//! convergence model, the parsers for the listings the OS tools print,
//! the marker-file state machine, the bounded-retry verification
//! combinator, and the safety-gated scratch-file cleanup planner.
//! The surrounding binary performs the actual subprocess and
//! filesystem work and feeds the observed values into these functions.

pub mod discovery;
pub mod errors;
pub mod extensions;
pub mod launchagent;
pub mod orchestrator;
pub mod processes;
pub mod status;
pub mod text;
