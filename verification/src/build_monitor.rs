//! Build status tracking: the states a repository build can be in, how a
//! workflow run's reported status maps onto them, and when polling stops.
use vstd::prelude::*;
use crate::strings::str_eq;

verus! {

broadcast use vstd::string::group_string_axioms;

/// `std::time::Instant`, carried through build records unread.
#[verifier::external_type_specification]
#[verifier::external_body]
pub struct ExInstant(std::time::Instant);

/// Build status for a repository.
#[derive(Debug, Clone, Copy, PartialEq, Eq, Structural)]
pub enum BuildStatus {
    Pending,
    InProgress,
    Success,
    Failure,
    Cancelled,
    TimedOut,
}

/// Build state for a single repository.
#[derive(Debug, Clone)]
pub struct BuildState {
    pub repo: String,
    pub status: BuildStatus,
    pub workflow_run_id: Option<u64>,
    pub started_at: Option<std::time::Instant>,
    pub completed_at: Option<std::time::Instant>,
    pub error: Option<String>,
    pub retry_count: u32,
}

/// The build status for a workflow run's reported status and conclusion: a
/// completed run is a success, failure or cancellation by its conclusion
/// (any other conclusion counts as failure); a run in progress is in
/// progress; a queued run, and any unknown status, is pending.
pub open spec fn run_status_spec(status: Seq<char>, conclusion: Option<Seq<char>>) -> BuildStatus {
    if status == "Completed"@ {
        match conclusion {
            Some(c) => if c == "Success"@ {
                BuildStatus::Success
            } else if c == "Failure"@ {
                BuildStatus::Failure
            } else if c == "Cancelled"@ {
                BuildStatus::Cancelled
            } else {
                BuildStatus::Failure
            },
            None => BuildStatus::Failure,
        }
    } else if status == "InProgress"@ {
        BuildStatus::InProgress
    } else {
        BuildStatus::Pending
    }
}

/// Map a workflow run's reported status and conclusion to a build status.
pub fn workflow_run_status(status: &str, conclusion: Option<&str>) -> (res: BuildStatus)
    ensures
        res == run_status_spec(status@, match conclusion { Some(c) => Some(c@), None => None }),
{
    if str_eq(status, "Completed") {
        match conclusion {
            Some(c) => {
                if str_eq(c, "Success") {
                    BuildStatus::Success
                } else if str_eq(c, "Failure") {
                    BuildStatus::Failure
                } else if str_eq(c, "Cancelled") {
                    BuildStatus::Cancelled
                } else {
                    BuildStatus::Failure
                }
            },
            None => BuildStatus::Failure,
        }
    } else if str_eq(status, "InProgress") {
        BuildStatus::InProgress
    } else {
        BuildStatus::Pending
    }
}

/// A status in which a build has finished.
pub open spec fn is_final(s: BuildStatus) -> bool {
    s == BuildStatus::Success || s == BuildStatus::Failure || s == BuildStatus::Cancelled
}

/// What the build monitor does after one poll.
#[derive(Debug, Clone, Copy, PartialEq, Eq, Structural)]
pub enum MonitorStep {
    /// Stop and report this status.
    Done(BuildStatus),
    /// Wait one poll interval and ask again.
    KeepPolling,
}

/// One step of monitoring a build.  `elapsed_ms` is the time since
/// monitoring began and `timeout_ms` the allowed time; `polled` is the status
/// just read from the workflow run, or `None` when reading it failed.
/// Past the timeout the build is timed out; a finished status ends the
/// monitoring; anything else keeps polling.
pub fn monitor_step(elapsed_ms: u64, timeout_ms: u64, polled: Option<BuildStatus>) -> (res: MonitorStep)
    ensures
        elapsed_ms > timeout_ms ==> res == MonitorStep::Done(BuildStatus::TimedOut),
        elapsed_ms <= timeout_ms ==> (res == match polled {
            Some(s) => if is_final(s) { MonitorStep::Done(s) } else { MonitorStep::KeepPolling },
            None => MonitorStep::KeepPolling,
        }),
{
    if elapsed_ms > timeout_ms {
        return MonitorStep::Done(BuildStatus::TimedOut);
    }
    match polled {
        Some(BuildStatus::Success) => MonitorStep::Done(BuildStatus::Success),
        Some(BuildStatus::Failure) => MonitorStep::Done(BuildStatus::Failure),
        Some(BuildStatus::Cancelled) => MonitorStep::Done(BuildStatus::Cancelled),
        _ => MonitorStep::KeepPolling,
    }
}

/// The status recorded for a monitored build: what monitoring reported, or
/// failure when monitoring itself failed.
pub fn recorded_status(outcome: Option<BuildStatus>) -> (res: BuildStatus)
    ensures
        res == match outcome { Some(s) => s, None => BuildStatus::Failure },
{
    match outcome {
        Some(s) => s,
        None => BuildStatus::Failure,
    }
}

} // verus!
