//! Pull request status checks: tier names, repository names, the states
//! posted for each governance check, and the texts that go with them.
use vstd::prelude::*;
use crate::error::GovernanceError;
use crate::strings::{chars_of, contains_substring, contains_text, i64_to_decimal, int_decimal, string_from_chars, u64_to_decimal, nat_digits};
use crate::text::{split_on, split_spec, piece_string};

verus! {

broadcast use vstd::string::group_string_axioms;

/// The name of each action tier.
pub open spec fn tier_name_spec(tier: u32) -> Seq<char> {
    if tier == 1 {
        "Routine Maintenance"@
    } else if tier == 2 {
        "Feature Changes"@
    } else if tier == 3 {
        "Consensus-Adjacent"@
    } else if tier == 4 {
        "Emergency Actions"@
    } else if tier == 5 {
        "Governance Changes"@
    } else {
        "Unknown"@
    }
}

/// The name of an action tier.
pub fn get_tier_name(tier: u32) -> (res: &'static str)
    ensures
        res@ == tier_name_spec(tier),
{
    match tier {
        1 => "Routine Maintenance",
        2 => "Feature Changes",
        3 => "Consensus-Adjacent",
        4 => "Emergency Actions",
        5 => "Governance Changes",
        _ => "Unknown",
    }
}

/// Split "owner/repo" into its two parts; any other number of '/'-separated
/// parts is an error.
pub fn parse_repo_name(repo_name: &str) -> (res: Result<(String, String), GovernanceError>)
    ensures
        split_spec(repo_name@, seq!['/']).len() == 2 <==> res is Ok,
        res matches Ok(p) ==> p.0@ == split_spec(repo_name@, seq!['/'])[0] && p.1@ == split_spec(repo_name@, seq!['/'])[1],
        res matches Err(e) ==> e is WebhookError && e.message() == "Invalid repository name format"@,
{
    let cs = chars_of(repo_name);
    let mut seps: Vec<char> = Vec::new();
    seps.push('/');
    assert(seps@ =~= seq!['/']);
    let parts = split_on(&cs, &seps);
    if parts.len() != 2 {
        return Err(GovernanceError::WebhookError(String::from_str("Invalid repository name format")));
    }
    Ok((piece_string(&parts[0]), piece_string(&parts[1])))
}

/// The state posted for the review period and signature checks: success
/// when the status text carries a check mark, pending otherwise.
pub fn requirement_state(status: &str) -> (res: &'static str)
    ensures
        res@ == if contains_text(status@, "✅"@) { "success"@ } else { "pending"@ },
{
    if contains_substring(status, "✅") { "success" } else { "pending" }
}

/// The state posted for the economic veto check: success when the status
/// text carries a check mark, failure otherwise.
pub fn veto_state(status: &str) -> (res: &'static str)
    ensures
        res@ == if contains_text(status@, "✅"@) { "success"@ } else { "failure"@ },
{
    if contains_substring(status, "✅") { "success" } else { "failure" }
}

/// The state posted for the combined check: success exactly when the
/// review period and signatures are met and no economic veto is active.
pub fn combined_state(review_period_met: bool, signatures_met: bool, economic_veto_active: bool) -> (res: &'static str)
    ensures
        res@ == if review_period_met && signatures_met && !economic_veto_active { "success"@ } else { "failure"@ },
{
    if review_period_met && signatures_met && !economic_veto_active { "success" } else { "failure" }
}

/// A pull request can be merged when GitHub reports it mergeable (unknown
/// counts as not), it is open, and it is not a draft (unknown counts as not
/// a draft).
pub fn can_merge(mergeable: Option<bool>, is_open: bool, draft: Option<bool>) -> (res: bool)
    ensures
        res == ((mergeable == Some(true)) && is_open && draft != Some(true)),
{
    let m = match mergeable {
        Some(b) => b,
        None => false,
    };
    let d = match draft {
        Some(b) => b,
        None => false,
    };
    m && is_open && !d
}

/// The text of the first status check posted on a new pull request.
pub fn initial_status_message(tier: u32, tier_name: &str) -> (res: String)
    ensures
        res@ == "🔍 Governance: Analyzing PR\nTier "@ + nat_digits(tier as nat) + ": "@ + tier_name@
            + "\nReview period and signature requirements will be checked..."@,
{
    let mut m = String::from_str("🔍 Governance: Analyzing PR\nTier ");
    let t = u64_to_decimal(tier as u64);
    m.append(t.as_str());
    m.append(": ");
    m.append(tier_name);
    m.append("\nReview period and signature requirements will be checked...");
    m
}

/// Whole days and hours in a span of milliseconds, truncated toward zero
/// (as `chrono::Duration::num_days` and `num_hours`).
pub open spec fn whole_units(ms: int, unit: int) -> int {
    if ms >= 0 { ms / unit } else { -((-ms) / unit) }
}

/// The review period line of the economic veto status, given the time left
/// until the review ends: days while at least a day remains, hours while at
/// least an hour remains, and otherwise whether the override is active or
/// available.
pub open spec fn review_line_spec(remaining_ms: int, maintainer_override: bool) -> Seq<char> {
    if whole_units(remaining_ms, 86_400_000) > 0 {
        "\nReview Period: "@ + int_decimal(whole_units(remaining_ms, 86_400_000)) + " days remaining"@
    } else if whole_units(remaining_ms, 3_600_000) > 0 {
        "\nReview Period: "@ + int_decimal(whole_units(remaining_ms, 3_600_000)) + " hours remaining"@
    } else if maintainer_override {
        "\nReview Period: Expired - Maintainer override active"@
    } else {
        "\nReview Period: Expired - Override available"@
    }
}

/// The review period line of the economic veto status.
pub fn review_period_line(remaining_ms: i64, maintainer_override: bool) -> (res: String)
    requires
        remaining_ms > i64::MIN,
    ensures
        res@ == review_line_spec(remaining_ms as int, maintainer_override),
{
    let days: i64 = if remaining_ms >= 0 { remaining_ms / 86_400_000 } else { -((-remaining_ms) / 86_400_000) };
    let hours: i64 = if remaining_ms >= 0 { remaining_ms / 3_600_000 } else { -((-remaining_ms) / 3_600_000) };
    if days > 0 {
        let mut m = String::from_str("\nReview Period: ");
        m.append(i64_to_decimal(days).as_str());
        m.append(" days remaining");
        m
    } else if hours > 0 {
        let mut m = String::from_str("\nReview Period: ");
        m.append(i64_to_decimal(hours).as_str());
        m.append(" hours remaining");
        m
    } else if maintainer_override {
        String::from_str("\nReview Period: Expired - Maintainer override active")
    } else {
        String::from_str("\nReview Period: Expired - Override available")
    }
}

/// The resolution line of the economic veto status.
pub fn resolution_line(path: &str) -> (res: String)
    ensures
        res@ == "\nResolution: "@ + path@,
{
    let mut m = String::from_str("\nResolution: ");
    m.append(path);
    m
}

} // verus!
