//! Deadline notifications for governance review cases, appeals and
//! mediations: which deadlines are close enough to notify about, and the
//! notification text.  Instants are milliseconds since the Unix epoch.
use vstd::prelude::*;
use crate::strings::{i64_to_decimal, int_decimal, str_eq};
use crate::pr_status::whole_units;

verus! {

broadcast use vstd::string::group_string_axioms;

/// Days before a deadline at which its notification goes out.
pub const NOTIFICATION_DAYS_BEFORE: i64 = 7;

/// How many notifications of each kind were due.
#[derive(Debug, Clone, Copy, PartialEq, Eq, Structural)]
pub struct DeadlineNotificationResult {
    pub cases_notified: usize,
    pub appeals_notified: usize,
    pub mediations_notified: usize,
}

impl Default for DeadlineNotificationResult {
    fn default() -> (res: Self)
        ensures
            res.cases_notified == 0 && res.appeals_notified == 0 && res.mediations_notified == 0,
    {
        DeadlineNotificationResult { cases_notified: 0, appeals_notified: 0, mediations_notified: 0 }
    }
}

/// A deadline is due for notification when it is still ahead but no more
/// than seven days away.
pub open spec fn due_spec(deadline_ms: int, now_ms: int) -> bool {
    now_ms < deadline_ms && deadline_ms <= now_ms + 7 * 86_400_000
}

/// What kind of deadline is being checked.
#[derive(Debug, Clone, Copy, PartialEq, Eq, Structural)]
pub enum DeadlineKind {
    /// Case resolution deadlines: open cases only.
    Case,
    /// Appeal deadlines: pending appeals only.
    Appeal,
    /// Mediation deadlines: active mediations only.
    Mediation,
}

/// Whether a record in status `status` takes part for its kind: cases that
/// are not resolved, dismissed, removed or expired; pending appeals; active
/// mediations.
pub open spec fn status_counts(kind: DeadlineKind, status: Seq<char>) -> bool {
    match kind {
        DeadlineKind::Case => !(status == "resolved"@ || status == "dismissed"@ || status == "removed"@
            || status == "expired"@),
        DeadlineKind::Appeal => status == "pending"@,
        DeadlineKind::Mediation => status == "active"@,
    }
}

fn status_counts_exec(kind: DeadlineKind, status: &str) -> (res: bool)
    ensures
        res == status_counts(kind, status@),
{
    match kind {
        DeadlineKind::Case => !(str_eq(status, "resolved") || str_eq(status, "dismissed") || str_eq(status, "removed")
            || str_eq(status, "expired")),
        DeadlineKind::Appeal => str_eq(status, "pending"),
        DeadlineKind::Mediation => str_eq(status, "active"),
    }
}

/// The record takes part and its deadline is due.
pub open spec fn record_due(kind: DeadlineKind, r: (i32, String, Option<i64>), now_ms: int) -> bool {
    status_counts(kind, r.1@) && match r.2 {
        Some(d) => due_spec(d as int, now_ms),
        None => false,
    }
}

/// The ids of the records, in order, that are due.
pub open spec fn due_ids_spec(kind: DeadlineKind, rows: Seq<(i32, String, Option<i64>)>, now_ms: int) -> Seq<i32>
    decreases rows.len(),
{
    if rows.len() == 0 {
        Seq::empty()
    } else {
        let prev = due_ids_spec(kind, rows.drop_last(), now_ms);
        if record_due(kind, rows.last(), now_ms) { prev.push(rows.last().0) } else { prev }
    }
}

/// The ids of the records (id, status, deadline) whose deadlines are due.
pub fn due_ids(kind: DeadlineKind, rows: &Vec<(i32, String, Option<i64>)>, now_ms: i64) -> (res: Vec<i32>)
    requires
        now_ms + 7 * 86_400_000 <= i64::MAX,
    ensures
        res@ == due_ids_spec(kind, rows@, now_ms as int),
{
    let horizon = now_ms + NOTIFICATION_DAYS_BEFORE * 86_400_000;
    let mut out: Vec<i32> = Vec::new();
    let mut i: usize = 0;
    while i < rows.len()
        invariant
            i <= rows@.len(),
            horizon == now_ms + 7 * 86_400_000,
            out@ == due_ids_spec(kind, rows@.take(i as int), now_ms as int),
        decreases rows@.len() - i,
    {
        assert(rows@.take(i + 1).drop_last() =~= rows@.take(i as int));
        let (id, status, deadline) = (&rows[i].0, &rows[i].1, &rows[i].2);
        if status_counts_exec(kind, status.as_str()) {
            match deadline {
                Some(d) => {
                    if now_ms < *d && *d <= horizon {
                        out.push(*id);
                    }
                },
                None => {},
            }
        }
        i = i + 1;
    }
    assert(rows@.take(rows@.len() as int) =~= rows@);
    out
}

/// The tally of due notifications.
pub fn tally(cases: &Vec<i32>, appeals: &Vec<i32>, mediations: &Vec<i32>) -> (res: DeadlineNotificationResult)
    ensures
        res.cases_notified == cases@.len(),
        res.appeals_notified == appeals@.len(),
        res.mediations_notified == mediations@.len(),
{
    DeadlineNotificationResult {
        cases_notified: cases.len(),
        appeals_notified: appeals.len(),
        mediations_notified: mediations.len(),
    }
}

/// Whole days until a deadline, truncated toward zero.
pub fn days_remaining(deadline_ms: i64, now_ms: i64) -> (res: i64)
    requires
        i64::MIN < deadline_ms - now_ms <= i64::MAX,
    ensures
        res == whole_units(deadline_ms - now_ms, 86_400_000),
{
    let span = deadline_ms - now_ms;
    if span >= 0 { span / 86_400_000 } else { -((-span) / 86_400_000) }
}

/// The comment posted on a case's issue when its deadline approaches; the
/// deadline arrives formatted as "%Y-%m-%d %H:%M:%S UTC".
pub fn case_deadline_message(case_number: &str, deadline_text: &str, days_left: i64) -> (res: String)
    ensures
        res@ == "## ⚠️ Deadline Approaching\n\n**Case:** "@ + case_number@ + "\n**Deadline:** "@ + deadline_text@
            + " ("@ + int_decimal(days_left as int)
            + " days remaining)\n\nThis case must be resolved within the deadline per governance review policy.\n\n---\n*Automated notification from Governance Review System*"@,
{
    let mut m = String::from_str("## ⚠️ Deadline Approaching\n\n**Case:** ");
    m.append(case_number);
    m.append("\n**Deadline:** ");
    m.append(deadline_text);
    m.append(" (");
    m.append(i64_to_decimal(days_left).as_str());
    m.append(" days remaining)\n\nThis case must be resolved within the deadline per governance review policy.\n\n---\n*Automated notification from Governance Review System*");
    m
}

/// Every id reported due belongs to a record that takes part and whose
/// deadline lies in the next seven days.
pub proof fn lemma_due_ids_are_due(kind: DeadlineKind, rows: Seq<(i32, String, Option<i64>)>, now_ms: int, k: int)
    requires
        0 <= k < due_ids_spec(kind, rows, now_ms).len(),
    ensures
        exists|i: int| 0 <= i < rows.len() && rows[i].0 == due_ids_spec(kind, rows, now_ms)[k]
            && #[trigger] record_due(kind, rows[i], now_ms),
    decreases rows.len(),
{
    let prev = due_ids_spec(kind, rows.drop_last(), now_ms);
    if k < prev.len() {
        lemma_due_ids_are_due(kind, rows.drop_last(), now_ms, k);
        let i = choose|i: int| 0 <= i < rows.drop_last().len() && rows.drop_last()[i].0 == prev[k]
            && #[trigger] record_due(kind, rows.drop_last()[i], now_ms);
        assert(rows[i] == rows.drop_last()[i]);
    } else {
        assert(record_due(kind, rows[rows.len() - 1], now_ms));
    }
}

/// Which records are notified: a case unless it is resolved, dismissed,
/// removed or expired; an appeal only while pending; a mediation only while
/// active; in each case only when its deadline lies after now and at most
/// seven days (604 800 000 ms) ahead.
pub open spec fn notified(kind: DeadlineKind, status: Seq<char>, deadline: Option<i64>, now_ms: int) -> bool {
    let status_ok = match kind {
        DeadlineKind::Case => status != "resolved"@ && status != "dismissed"@ && status != "removed"@
            && status != "expired"@,
        DeadlineKind::Appeal => "pending"@ == status,
        DeadlineKind::Mediation => "active"@ == status,
    };
    status_ok && match deadline {
        Some(d) => now_ms < d && d <= now_ms + 604_800_000,
        None => false,
    }
}

/// The ids reported due for one record: its id when it is notified, none
/// otherwise.
pub proof fn lemma_due_ids_one_record(kind: DeadlineKind, row: (i32, String, Option<i64>), now_ms: int)
    ensures
        due_ids_spec(kind, seq![row], now_ms)
            == if notified(kind, row.1@, row.2, now_ms) { seq![row.0] } else { Seq::<i32>::empty() },
{
    assert(seq![row].drop_last() =~= Seq::<(i32, String, Option<i64>)>::empty());
    assert(seq![row].last() == row);
    assert(due_ids_spec(kind, Seq::<(i32, String, Option<i64>)>::empty(), now_ms) == Seq::<i32>::empty());
    assert(record_due(kind, row, now_ms) == notified(kind, row.1@, row.2, now_ms));
    if notified(kind, row.1@, row.2, now_ms) {
        assert(Seq::<i32>::empty().push(row.0) =~= seq![row.0]);
    }
}

/// The ids reported due for records added one after another: those of the
/// earlier records, then those of the added one, in order.
pub proof fn lemma_due_ids_append(kind: DeadlineKind, rows: Seq<(i32, String, Option<i64>)>, row: (i32, String, Option<i64>), now_ms: int)
    ensures
        due_ids_spec(kind, rows.push(row), now_ms) == due_ids_spec(kind, rows, now_ms) + due_ids_spec(kind, seq![row], now_ms),
{
    lemma_due_ids_one_record(kind, row, now_ms);
    assert(rows.push(row).drop_last() =~= rows);
    assert(rows.push(row).last() == row);
    if notified(kind, row.1@, row.2, now_ms) {
        assert(due_ids_spec(kind, rows, now_ms).push(row.0) =~= due_ids_spec(kind, rows, now_ms) + seq![row.0]);
    } else {
        assert(due_ids_spec(kind, rows, now_ms) =~= due_ids_spec(kind, rows, now_ms) + Seq::<i32>::empty());
    }
}

} // verus!
