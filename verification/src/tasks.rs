//! The health of background tasks as the metrics page reports it.

use vstd::prelude::*;

verus! {

/// What is known of one background task.
#[derive(Debug)]
pub struct TaskSnapshot {
    pub name: String,
    /// Restarts by the supervisor after a panic or an unexpected return.
    pub restarts: u64,
    /// Whether the task is running now.
    pub running: bool,
    /// Consecutive panics since the task last ran stably.
    pub consecutive_failures: u32,
    /// Why configuration gave the task nothing to do, if it exited for that.
    pub disabled_reason: Option<String>,
}

/// What is known of all background tasks.
#[derive(Debug)]
pub struct TaskHealth {
    /// Task starts, restarts counted.
    pub started: u64,
    /// Clean stops.
    pub stopped: u64,
    /// Panics.
    pub failed: u64,
    /// Each task, in the order in which tasks are reported.
    pub tasks: Vec<TaskSnapshot>,
    /// Tasks that should be running; those disabled by configuration are not
    /// among them.
    pub expected_tasks: usize,
    /// Expected tasks that are running now.
    pub live_tasks: usize,
    /// Unix timestamp of the last progress of on-chain payment detection.
    pub last_success_unix: i64,
}

} // verus!
