//! When a run reports its progress.
//!
//! The report is a side channel: it never changes what is batched or
//! dispatched.  The caller reads the clock and prints; the decisions are here.

use vstd::prelude::*;

verus! {

/// Whether a status line is due after a file has been processed: the number
/// of files processed is a multiple of the count cadence, or the run has lasted
/// at least the time cadence.  A count cadence of zero switches the count off:
/// status lines are then due by the time cadence alone.
pub open spec fn feedback_due_spec(
    files_seen: nat,
    file_feedback_count: nat,
    elapsed_secs: nat,
    time_feedback_interval: nat,
) -> bool {
    (file_feedback_count > 0 && files_seen % file_feedback_count == 0) || elapsed_secs
        >= time_feedback_interval
}

/// Decides whether a status line is due.  `files_seen` counts the files
/// processed so far, this one included; `elapsed_secs` is the whole number of
/// seconds since the run began.  Every cadence is accepted, zero included.
pub fn feedback_due(
    files_seen: u64,
    file_feedback_count: u64,
    elapsed_secs: u64,
    time_feedback_interval: u64,
) -> (due: bool)
    ensures
        due == feedback_due_spec(
            files_seen as nat,
            file_feedback_count as nat,
            elapsed_secs as nat,
            time_feedback_interval as nat,
        ),
{
    (file_feedback_count > 0 && files_seen % file_feedback_count == 0) || elapsed_secs
        >= time_feedback_interval
}

/// The whole minutes in a number of seconds, as the periodic "still running"
/// line shows them.
pub fn elapsed_minutes(elapsed_secs: u64) -> (minutes: u64)
    ensures
        minutes == elapsed_secs / 60,
{
    elapsed_secs / 60
}

} // verus!
