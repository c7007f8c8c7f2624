//! A round-based governance engine: identified participants submit proposals,
//! raise concerns against them, vote on both, and a council poll finally
//! decides whether a winning proposal becomes a project.
//!
//! The engine is a single owned state machine. The host environment drives it:
//! it invokes [`engine::Engine::on_deadline_elapsed`] when the recorded
//! deadline passes, performs the requested outside actions (reward payments,
//! council polls, project spawning) and reports their outcomes back.

pub mod commands;
pub mod engine;
pub mod identity;
pub mod laws;
pub mod model;
pub mod ratio;
pub mod transit;
pub mod types;
