//! The sequential veto mechanism's state rules: tier thresholds and review
//! periods, what is recorded when the veto threshold is met, when a veto is
//! active, and when a maintainer may override it.  Instants are
//! milliseconds since the Unix epoch.
use vstd::prelude::*;
use crate::economic_types::{node_type_from_name, signal_type_from_name, NodeType, SignalType};
use crate::error::GovernanceError;
use crate::strings::{nat_digits, u64_to_decimal};

verus! {

broadcast use vstd::string::group_string_axioms;

/// Milliseconds in a day.
pub const MILLIS_PER_DAY: i64 = 86_400_000;

/// Base veto thresholds of a tier and its default review period:
/// (mining percent, economic percent, review days).  Tier 3: 30% and 40%
/// over 90 days; tier 4: 25% and 35% with a 24-hour review (0 days); tier
/// 5: 50% and 60% over 180 days; any other tier as tier 3.
pub open spec fn tier_veto_spec(tier: u32) -> (u32, u32, u32) {
    if tier == 4 {
        (25, 35, 0)
    } else if tier == 5 {
        (50, 60, 180)
    } else {
        (30, 40, 90)
    }
}

/// Base veto thresholds and default review days of a tier.
pub fn tier_veto_parameters(tier: u32) -> (res: (u32, u32, u32))
    ensures
        res == tier_veto_spec(tier),
        tier == 3 ==> res == (30u32, 40u32, 90u32),
        tier == 4 ==> res == (25u32, 35u32, 0u32),
        tier == 5 ==> res == (50u32, 60u32, 180u32),
        res.0 < res.1,
{
    match tier {
        3 => (30, 40, 90),
        4 => (25, 35, 0),
        5 => (50, 60, 180),
        _ => (30, 40, 90),
    }
}

/// Fixed participation vote threshold of a tier: 100, 500, 1 000, 2 500 and
/// 5 000 for tiers 1 to 5; none for any other tier.
pub open spec fn vote_threshold_spec(tier: u8) -> Option<u32> {
    if tier == 1 {
        Some(100)
    } else if tier == 2 {
        Some(500)
    } else if tier == 3 {
        Some(1_000)
    } else if tier == 4 {
        Some(2_500)
    } else if tier == 5 {
        Some(5_000)
    } else {
        None
    }
}

/// The vote threshold of a tier, or "Invalid tier: N" for a tier outside 1..=5.
pub fn get_threshold_for_tier(tier: u8) -> (res: Result<u32, String>)
    ensures
        match res {
            Ok(v) => vote_threshold_spec(tier) == Some(v),
            Err(m) => vote_threshold_spec(tier) is None && m@ == "Invalid tier: "@ + nat_digits(tier as nat),
        },
{
    match tier {
        1 => Ok(100),
        2 => Ok(500),
        3 => Ok(1_000),
        4 => Ok(2_500),
        5 => Ok(5_000),
        _ => {
            let mut m = String::from_str("Invalid tier: ");
            let d = u64_to_decimal(tier as u64);
            m.append(d.as_str());
            Err(m)
        },
    }
}

/// Which veto weight a signal adds to.
#[derive(Debug, Clone, Copy, PartialEq, Eq, Structural)]
pub enum VetoBucket {
    /// A veto from a mining pool: counts toward hashpower.
    Mining,
    /// A veto from any other economic node: counts toward economic activity.
    Economic,
}

/// Where a stored signal's weight goes, from its node type and signal type
/// names: vetoes from mining pools count as mining, other vetoes as
/// economic, and support or abstention counts nowhere.  An unknown node
/// type or signal type is an error.
pub fn veto_bucket(node_type: &str, signal_type: &str) -> (res: Result<Option<VetoBucket>, GovernanceError>)
    ensures
        res is Ok <==> node_type_from_name(node_type@) is Some && signal_type_from_name(signal_type@) is Some,
        res matches Ok(b) ==> b == if signal_type_from_name(signal_type@) != Some(SignalType::Veto) {
            None
        } else if node_type_from_name(node_type@) == Some(NodeType::MiningPool) {
            Some(VetoBucket::Mining)
        } else {
            Some(VetoBucket::Economic)
        },
        res matches Err(e) ==> e is CryptoError && e.message() == if node_type_from_name(node_type@) is None {
            "Invalid node type: "@ + node_type@
        } else {
            "Invalid signal type: "@ + signal_type@
        },
{
    let nt = match NodeType::from_str(node_type) {
        Some(t) => t,
        None => {
            let mut m = String::from_str("Invalid node type: ");
            m.append(node_type);
            return Err(GovernanceError::CryptoError(m));
        },
    };
    let st = match SignalType::from_str(signal_type) {
        Some(t) => t,
        None => {
            let mut m = String::from_str("Invalid signal type: ");
            m.append(signal_type);
            return Err(GovernanceError::CryptoError(m));
        },
    };
    match st {
        SignalType::Veto => match nt {
            NodeType::MiningPool => Ok(Some(VetoBucket::Mining)),
            _ => Ok(Some(VetoBucket::Economic)),
        },
        _ => Ok(None),
    }
}

/// The message a node signs to cast a veto signal on a PR.
pub fn veto_signal_message(pr_id: i32, entity_name: &str) -> (res: String)
    ensures
        res@ == "PR #"@ + crate::strings::int_decimal(pr_id as int) + " veto signal from "@ + entity_name@,
{
    let mut m = String::from_str("PR #");
    m.append(crate::strings::i64_to_decimal(pr_id as i64).as_str());
    m.append(" veto signal from ");
    m.append(entity_name);
    m
}

/// A veto signal is accepted from an active node whose signature verifies
/// and which has not signalled on the PR before; the first failing check
/// gives the error.
pub fn check_veto_signal_admissible(node_status: crate::economic_types::NodeStatus, signature_verified: bool, already_submitted: bool) -> (res: Result<(), GovernanceError>)
    ensures
        res is Ok <==> node_status == crate::economic_types::NodeStatus::Active && signature_verified && !already_submitted,
        res matches Err(e) ==> e is CryptoError && e.message() == if node_status != crate::economic_types::NodeStatus::Active {
            "Node is not active"@
        } else if !signature_verified {
            "Invalid signature"@
        } else {
            "Node already submitted signal for this PR"@
        },
{
    match node_status {
        crate::economic_types::NodeStatus::Active => {},
        _ => {
            return Err(GovernanceError::CryptoError(String::from_str("Node is not active")));
        },
    }
    if !signature_verified {
        return Err(GovernanceError::CryptoError(String::from_str("Invalid signature")));
    }
    if already_submitted {
        return Err(GovernanceError::CryptoError(String::from_str("Node already submitted signal for this PR")));
    }
    Ok(())
}

/// Longest review period in milliseconds (180 days).
pub open spec fn max_review_ms() -> int {
    180int * 86_400_000int
}

/// The end of a review period of `days` days starting at `start_ms`; a
/// period of 0 days lasts 24 hours.
pub open spec fn review_end_spec(start_ms: int, days: u32) -> int {
    if days == 0 { start_ms + 86_400_000 } else { start_ms + days * 86_400_000 }
}

/// The veto state stored for a PR, as read back.
#[derive(Debug, Clone)]
pub struct StoredVetoState {
    /// When the veto was triggered; `None` when the stored text did not parse.
    pub triggered_at_ms: Option<i64>,
    pub review_period_days: i32,
    /// End of the review period; `None` when the stored text did not parse.
    pub review_period_ends_at_ms: Option<i64>,
    /// Stored override flag (non-zero means overridden).
    pub maintainer_override: i32,
    pub override_timestamp_ms: Option<i64>,
    pub override_by: Option<String>,
    pub resolution_path: Option<String>,
}

/// What to write to the stored veto state.
#[derive(Debug, Clone, Copy, PartialEq, Eq, Structural)]
pub enum VetoStateWrite {
    /// Record a newly triggered veto.
    Insert { triggered_at_ms: i64, review_period_days: u32, ends_at_ms: i64 },
    /// Refresh the stored threshold and activity flags.
    Update { threshold_met: bool, veto_active: bool },
    /// Nothing to record.
    NoWrite,
}

/// The outcome of a veto threshold check.
#[derive(Debug, Clone)]
pub struct VetoDecision {
    pub threshold_met: bool,
    pub veto_active: bool,
    pub review_period_start_ms: Option<i64>,
    pub review_period_days: u32,
    pub review_period_ends_at_ms: Option<i64>,
    pub maintainer_override: bool,
    pub override_timestamp_ms: Option<i64>,
    pub override_by: Option<String>,
    pub resolution_path: Option<String>,
    pub write: VetoStateWrite,
}

/// Decide the veto state of a PR of tier `tier` at `now_ms`, given whether
/// both veto thresholds are met and the stored state, if any.
///
/// When the thresholds are met and nothing is stored, the veto is triggered
/// now and its review period recorded.  When a state is stored, it is kept
/// and its flags refreshed.  Otherwise nothing is recorded and the tier's
/// default review period is reported.  In every case the veto is active
/// exactly when the thresholds are met and no maintainer has overridden it.
pub fn decide_veto_state(threshold_met: bool, tier: u32, stored: Option<StoredVetoState>, now_ms: i64) -> (d: VetoDecision)
    requires
        now_ms + max_review_ms() <= i64::MAX,
    ensures
        d.threshold_met == threshold_met,
        d.veto_active == (threshold_met && !d.maintainer_override),
        match stored {
            None => if threshold_met {
                let days = tier_veto_spec(tier).2;
                &&& d.write == VetoStateWrite::Insert {
                    triggered_at_ms: now_ms,
                    review_period_days: days,
                    ends_at_ms: review_end_spec(now_ms as int, days) as i64,
                }
                &&& d.review_period_start_ms == Some(now_ms)
                &&& d.review_period_days == days
                &&& d.review_period_ends_at_ms == Some(review_end_spec(now_ms as int, days) as i64)
                &&& !d.maintainer_override
                &&& d.override_timestamp_ms is None && d.override_by is None && d.resolution_path is None
            } else {
                &&& d.write == VetoStateWrite::NoWrite
                &&& d.review_period_start_ms is None
                &&& d.review_period_days == tier_veto_spec(tier).2
                &&& d.review_period_ends_at_ms is None
                &&& !d.maintainer_override
                &&& d.override_timestamp_ms is None && d.override_by is None && d.resolution_path is None
            },
            Some(s) => {
                &&& d.write == VetoStateWrite::Update { threshold_met, veto_active: threshold_met && s.maintainer_override == 0 }
                &&& d.review_period_start_ms == s.triggered_at_ms
                &&& d.review_period_days == s.review_period_days as u32
                &&& d.review_period_ends_at_ms == s.review_period_ends_at_ms
                &&& d.maintainer_override == (s.maintainer_override != 0)
                &&& d.override_timestamp_ms == s.override_timestamp_ms
                &&& d.override_by == s.override_by
                &&& d.resolution_path == s.resolution_path
            },
        },
{
    let (_, _, default_days) = tier_veto_parameters(tier);
    match stored {
        None => {
            if threshold_met {
                let ends = if default_days == 0 {
                    now_ms + MILLIS_PER_DAY
                } else {
                    now_ms + (default_days as i64) * MILLIS_PER_DAY
                };
                VetoDecision {
                    threshold_met,
                    veto_active: true,
                    review_period_start_ms: Some(now_ms),
                    review_period_days: default_days,
                    review_period_ends_at_ms: Some(ends),
                    maintainer_override: false,
                    override_timestamp_ms: None,
                    override_by: None,
                    resolution_path: None,
                    write: VetoStateWrite::Insert { triggered_at_ms: now_ms, review_period_days: default_days, ends_at_ms: ends },
                }
            } else {
                VetoDecision {
                    threshold_met,
                    veto_active: false,
                    review_period_start_ms: None,
                    review_period_days: default_days,
                    review_period_ends_at_ms: None,
                    maintainer_override: false,
                    override_timestamp_ms: None,
                    override_by: None,
                    resolution_path: None,
                    write: VetoStateWrite::NoWrite,
                }
            }
        },
        Some(s) => {
            let overridden = s.maintainer_override != 0;
            let active = threshold_met && !overridden;
            VetoDecision {
                threshold_met,
                veto_active: active,
                review_period_start_ms: s.triggered_at_ms,
                review_period_days: s.review_period_days as u32,
                review_period_ends_at_ms: s.review_period_ends_at_ms,
                maintainer_override: overridden,
                override_timestamp_ms: s.override_timestamp_ms,
                override_by: s.override_by,
                resolution_path: s.resolution_path,
                write: VetoStateWrite::Update { threshold_met, veto_active: active },
            }
        },
    }
}

/// Consensus is achieved when a veto was triggered for the PR (its state
/// is stored), no maintainer has overridden it, and the opposition has
/// fallen below the threshold.
pub open spec fn consensus_spec(threshold_met: bool, stored: Option<StoredVetoState>) -> bool {
    match stored {
        Some(s) => s.maintainer_override == 0 && !threshold_met,
        None => false,
    }
}

/// Whether consensus is achieved, given whether both veto thresholds are
/// met now and the stored veto state.  When it is, the caller records the
/// "consensus" resolution and clears the veto.
pub fn check_consensus_achieved(threshold_met: bool, stored: &Option<StoredVetoState>) -> (res: bool)
    ensures
        res == consensus_spec(threshold_met, *stored),
{
    match stored {
        Some(s) => s.maintainer_override == 0 && !threshold_met,
        None => false,
    }
}

/// When consensus is achieved, the threshold check made with the same
/// inputs reports the veto inactive, and the veto stays on record (the
/// stored state is kept).
pub proof fn lemma_consensus_clears_veto(d: VetoDecision, threshold_met: bool, stored: Option<StoredVetoState>)
    requires
        consensus_spec(threshold_met, stored),
        d.threshold_met == threshold_met,
        d.veto_active == (threshold_met && !d.maintainer_override),
    ensures
        !d.veto_active,
        stored is Some,
{
}

/// The stored state a maintainer override is checked against.
#[derive(Debug)]
pub struct StoredOverrideState {
    /// Stored override flag (non-zero means overridden).
    pub maintainer_override: i32,
    /// End of the review period with its display text, or the reason the
    /// stored text did not parse.
    pub review_period_ends_at: Result<(i64, String), String>,
}

/// A stored, not yet overridden veto whose readable review end has come.
pub open spec fn override_allowed_spec(stored: Option<StoredOverrideState>, now_ms: int) -> bool {
    match stored {
        Some(s) => s.maintainer_override == 0 && match s.review_period_ends_at {
            Ok(e) => now_ms >= e.0,
            Err(_) => false,
        },
        None => false,
    }
}

/// Whether a maintainer may override a veto at `now_ms`: there must be a
/// stored veto state, not yet overridden, with a readable review end that
/// has come.
pub fn check_override_allowed(stored: Option<StoredOverrideState>, now_ms: i64) -> (res: Result<(), GovernanceError>)
    ensures
        res is Ok <==> override_allowed_spec(stored, now_ms as int),
        res matches Err(e) ==> e is CryptoError,
        res matches Err(e) ==> e.message() == match stored {
            None => "No veto state found for this PR"@,
            Some(s) => if s.maintainer_override != 0 {
                "Veto already overridden"@
            } else {
                match s.review_period_ends_at {
                    Err(why) => "Invalid timestamp: "@ + why@,
                    Ok(e) => "Review period not ended yet. Ends at: "@ + e.1@,
                }
            },
        },
{
    let s = match stored {
        None => {
            return Err(GovernanceError::CryptoError(String::from_str("No veto state found for this PR")));
        },
        Some(s) => s,
    };
    if s.maintainer_override != 0 {
        return Err(GovernanceError::CryptoError(String::from_str("Veto already overridden")));
    }
    match s.review_period_ends_at {
        Err(why) => {
            let mut m = String::from_str("Invalid timestamp: ");
            m.append(why.as_str());
            Err(GovernanceError::CryptoError(m))
        },
        Ok((end, text)) => {
            if now_ms < end {
                let mut m = String::from_str("Review period not ended yet. Ends at: ");
                m.append(text.as_str());
                Err(GovernanceError::CryptoError(m))
            } else {
                Ok(())
            }
        },
    }
}

} // verus!
