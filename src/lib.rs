//! Scheduling and retry logic for a bot that rotates the banner image of many
//! chat servers on independent, drift-corrected timers.
use vstd::prelude::*;

pub mod commands;
pub mod committer;
pub mod discovery;
pub mod events;
pub mod notify;
pub mod orchestrator;
pub mod record;
pub mod schedule;
pub mod text;
pub mod timers;
pub mod timing;

verus! {

} // verus!
