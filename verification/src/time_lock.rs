//! Time locks on tier 3-5 governance changes: how long a change must wait,
//! when its lock ends, and what state it is in.  Instants are milliseconds
//! since the Unix epoch.
use vstd::prelude::*;
use crate::strings::str_eq;

verus! {

broadcast use vstd::string::group_string_axioms;

/// Time lock status.
#[derive(Debug, Clone, Copy, PartialEq, Eq, Structural)]
pub enum TimeLockStatus {
    /// Time lock is pending (not yet elapsed).
    Pending,
    /// Time lock has elapsed and the change can be activated.
    Ready,
    /// Change has been activated.
    Activated,
    /// Change was cancelled.
    Cancelled,
}

/// Minimum lock durations per tier, in hours.
#[derive(Debug, Clone, Copy, PartialEq, Eq, Structural)]
pub struct TimeLockHours {
    pub tier3_min_hours: i64,
    pub tier4_min_hours: i64,
    pub tier5_min_hours: i64,
}

impl TimeLockHours {
    /// 7 days for tier 3, 14 days for tier 4, 30 days for tier 5.
    pub fn default_hours() -> (res: Self)
        ensures
            res.tier3_min_hours == 168,
            res.tier4_min_hours == 336,
            res.tier5_min_hours == 720,
    {
        TimeLockHours { tier3_min_hours: 168, tier4_min_hours: 336, tier5_min_hours: 720 }
    }
}

/// The minimum lock duration for a tier; an unknown tier gets the tier 5 duration.
pub open spec fn min_hours_spec(h: TimeLockHours, tier: u8) -> i64 {
    if tier == 3 {
        h.tier3_min_hours
    } else if tier == 4 {
        h.tier4_min_hours
    } else {
        h.tier5_min_hours
    }
}

/// The minimum lock duration for a tier, in hours.
pub fn min_duration_hours(hours: &TimeLockHours, tier: u8) -> (res: i64)
    ensures
        res == min_hours_spec(*hours, tier),
{
    match tier {
        3 => hours.tier3_min_hours,
        4 => hours.tier4_min_hours,
        _ => hours.tier5_min_hours,
    }
}

/// Milliseconds in an hour.
pub const MILLIS_PER_HOUR: i64 = 3_600_000;

/// The end of a lock that starts at `lock_start_ms` and lasts `min_hours`.
pub fn lock_end(lock_start_ms: i64, min_hours: i64) -> (res: i64)
    requires
        i64::MIN <= min_hours * 3_600_000 <= i64::MAX,
        i64::MIN <= lock_start_ms + min_hours * 3_600_000 <= i64::MAX,
    ensures
        res == lock_start_ms + min_hours * 3_600_000,
{
    lock_start_ms + min_hours * MILLIS_PER_HOUR
}

/// The status of a time lock whose stored status text is `status` and which
/// ends at `lock_end_ms`, seen at `now_ms`: an activated or cancelled change
/// keeps that status; otherwise the lock is ready once its end has come.
pub open spec fn lock_status_spec(status: Seq<char>, lock_end_ms: int, now_ms: int) -> TimeLockStatus {
    if status == "activated"@ {
        TimeLockStatus::Activated
    } else if status == "cancelled"@ {
        TimeLockStatus::Cancelled
    } else if now_ms >= lock_end_ms {
        TimeLockStatus::Ready
    } else {
        TimeLockStatus::Pending
    }
}

/// The status of a stored time lock at `now_ms`; a lock that is not stored
/// counts as cancelled.
pub fn check_time_lock(stored: Option<(&str, i64)>, now_ms: i64) -> (res: TimeLockStatus)
    ensures
        res == match stored {
            Some((status, end)) => lock_status_spec(status@, end as int, now_ms as int),
            None => TimeLockStatus::Cancelled,
        },
{
    match stored {
        None => TimeLockStatus::Cancelled,
        Some((status, end)) => {
            if str_eq(status, "activated") {
                TimeLockStatus::Activated
            } else if str_eq(status, "cancelled") {
                TimeLockStatus::Cancelled
            } else if now_ms >= end {
                TimeLockStatus::Ready
            } else {
                TimeLockStatus::Pending
            }
        },
    }
}

/// Time left on a lock ending at `lock_end_ms`, seen at `now_ms`: zero once
/// the end has come.
pub fn time_remaining(lock_end_ms: i64, now_ms: i64) -> (res: i64)
    requires
        lock_end_ms - now_ms <= i64::MAX,
    ensures
        res == if now_ms >= lock_end_ms { 0 } else { lock_end_ms - now_ms },
        res >= 0,
{
    if now_ms >= lock_end_ms {
        0
    } else {
        lock_end_ms - now_ms
    }
}

/// A lock that has not been activated or cancelled is pending exactly while
/// time remains on it, and ready exactly when none does.
pub proof fn lemma_ready_iff_no_time_left(status: Seq<char>, lock_end_ms: int, now_ms: int)
    requires
        status != "activated"@,
        status != "cancelled"@,
    ensures
        lock_status_spec(status, lock_end_ms, now_ms) == TimeLockStatus::Ready <==> (if now_ms
            >= lock_end_ms { 0 } else { lock_end_ms - now_ms }) == 0,
        lock_status_spec(status, lock_end_ms, now_ms) == TimeLockStatus::Pending <==> (if now_ms
            >= lock_end_ms { 0 } else { lock_end_ms - now_ms }) > 0,
{
}

/// Once a lock is ready it stays ready at every later instant.
pub proof fn lemma_ready_stays_ready(status: Seq<char>, lock_end_ms: int, now_ms: int, later_ms: int)
    requires
        now_ms <= later_ms,
        lock_status_spec(status, lock_end_ms, now_ms) == TimeLockStatus::Ready,
    ensures
        lock_status_spec(status, lock_end_ms, later_ms) == TimeLockStatus::Ready,
{
}

} // verus!
