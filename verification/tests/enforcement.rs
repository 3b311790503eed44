use bllvm_commons::economic_types::NodeStatus;
use bllvm_commons::error::GovernanceError;
use bllvm_commons::merge_block::MergeBlocker;
use bllvm_commons::veto::{
    get_threshold_for_tier,
    check_consensus_achieved, check_override_allowed, check_veto_signal_admissible, decide_veto_state, tier_veto_parameters,
    veto_bucket, veto_signal_message, StoredOverrideState, StoredVetoState, VetoBucket, VetoDecision, VetoStateWrite,
};

#[test]
fn test_should_block_merge_all_requirements_met() {
    let result = MergeBlocker::should_block_merge(true, true, false, 2, false).unwrap();
    assert!(!result, "Should not block when all requirements met");
}

#[test]
fn test_should_block_merge_review_period_not_met() {
    let result = MergeBlocker::should_block_merge(false, true, false, 2, false).unwrap();
    assert!(result, "Should block when review period not met");
}

#[test]
fn test_should_block_merge_signatures_not_met() {
    let result = MergeBlocker::should_block_merge(true, false, false, 2, false).unwrap();
    assert!(result, "Should block when signatures not met");
}

#[test]
fn test_should_block_merge_economic_veto_tier3() {
    let result = MergeBlocker::should_block_merge(true, true, true, 3, false).unwrap();
    assert!(result, "Should block when economic veto active for Tier 3+");
}

#[test]
fn test_should_block_merge_economic_veto_tier2() {
    let result = MergeBlocker::should_block_merge(true, true, true, 2, false).unwrap();
    assert!(!result, "Should not block Tier 2 even with economic veto");
}

#[test]
fn test_should_block_merge_emergency_mode_signatures_met() {
    let result = MergeBlocker::should_block_merge(false, true, false, 4, true).unwrap();
    assert!(!result, "Should not block in emergency mode when signatures met");
}

#[test]
fn test_should_block_merge_emergency_mode_signatures_not_met() {
    let result = MergeBlocker::should_block_merge(true, false, false, 4, true).unwrap();
    assert!(result, "Should block in emergency mode when signatures not met");
}

#[test]
fn test_get_block_reason_all_met() {
    let reason = MergeBlocker::get_block_reason(true, true, false, 2, false);
    assert_eq!(reason, "All governance requirements met");
}

#[test]
fn test_get_block_reason_review_period() {
    let reason = MergeBlocker::get_block_reason(false, true, false, 2, false);
    assert!(reason.contains("Review period requirement not met"));
}

#[test]
fn test_get_block_reason_signatures() {
    let reason = MergeBlocker::get_block_reason(true, false, false, 2, false);
    assert!(reason.contains("Signature threshold requirement not met"));
}

#[test]
fn test_get_block_reason_economic_veto() {
    let reason = MergeBlocker::get_block_reason(true, true, true, 3, false);
    assert!(reason.contains("Economic node veto active"));
}

#[test]
fn test_get_block_reason_multiple() {
    let reason = MergeBlocker::get_block_reason(false, false, true, 3, false);
    assert!(reason.contains("Review period requirement not met"));
    assert!(reason.contains("Signature threshold requirement not met"));
    assert!(reason.contains("Economic node veto active"));
}

#[test]
fn test_get_block_reason_emergency_signatures_met() {
    let reason = MergeBlocker::get_block_reason(false, true, false, 4, true);
    assert_eq!(reason, "Emergency mode: All requirements met");
}

#[test]
fn test_get_block_reason_emergency_signatures_not_met() {
    let reason = MergeBlocker::get_block_reason(true, false, false, 4, true);
    assert_eq!(reason, "Emergency mode: Signature threshold not met");
}

#[test]
fn block_reason_full_text() {
    assert_eq!(
        MergeBlocker::get_block_reason(false, false, true, 3, false),
        "Governance requirements not met: Review period requirement not met, Signature threshold requirement not met, Economic node veto active (30%+ hashpower AND 40%+ economic activity)"
    );
    assert_eq!(
        MergeBlocker::get_block_reason(true, false, false, 1, false),
        "Governance requirements not met: Signature threshold requirement not met"
    );
}

#[test]
fn merge_status_texts() {
    let blocker = MergeBlocker::new(false);
    assert!(!blocker.dry_run_mode);
    let (state, text) = blocker.merge_status(true, "x");
    assert_eq!(state, "failure");
    assert_eq!(text, "❌ Merge blocked: x");
    let (state, text) = blocker.merge_status(false, "x");
    assert_eq!(state, "success");
    assert_eq!(text, "✅ Governance requirements met - merge allowed");
    let dry = MergeBlocker::new(true);
    assert_eq!(dry.merge_status(false, "").1, "[DRY-RUN] ✅ Governance requirements met - merge allowed");
}

fn decision(active: bool, overridden: bool, path: Option<&str>, met: bool) -> VetoDecision {
    VetoDecision {
        threshold_met: met,
        veto_active: active,
        review_period_start_ms: None,
        review_period_days: 90,
        review_period_ends_at_ms: None,
        maintainer_override: overridden,
        override_timestamp_ms: None,
        override_by: None,
        resolution_path: path.map(|p| p.to_string()),
        write: VetoStateWrite::NoWrite,
    }
}

#[test]
fn block_with_veto_rules() {
    assert!(MergeBlocker::should_block_merge_with_veto(true, true, &decision(true, false, None, true), 3, false).unwrap());
    assert!(!MergeBlocker::should_block_merge_with_veto(true, true, &decision(false, true, None, true), 3, false).unwrap());
    assert!(!MergeBlocker::should_block_merge_with_veto(true, true, &decision(false, false, Some("consensus"), true), 3, false).unwrap());
    assert!(!MergeBlocker::should_block_merge_with_veto(true, true, &decision(false, false, Some("override"), true), 3, false).unwrap());
    assert!(MergeBlocker::should_block_merge_with_veto(true, true, &decision(false, false, Some("dissolution"), true), 3, false).unwrap());
    assert!(!MergeBlocker::should_block_merge_with_veto(true, true, &decision(false, false, Some("dissolution"), false), 3, false).unwrap());
    assert!(!MergeBlocker::should_block_merge_with_veto(true, true, &decision(true, false, None, true), 2, false).unwrap());
    assert!(!MergeBlocker::should_block_merge_with_veto(false, true, &decision(true, false, None, true), 5, true).unwrap());
}

#[test]
fn veto_test_veto_threshold_calculation() {
    let mining_veto_percent = 25.0;
    let economic_veto_percent = 35.0;
    let threshold_met = mining_veto_percent >= 30.0 || economic_veto_percent >= 40.0;
    assert!(!threshold_met, "Should not meet threshold");
    let mining_veto_percent2 = 35.0;
    let threshold_met2 = mining_veto_percent2 >= 30.0 || economic_veto_percent >= 40.0;
    assert!(threshold_met2, "Should meet threshold with 35% mining");
    let economic_veto_percent2 = 45.0;
    let threshold_met3 = mining_veto_percent >= 30.0 || economic_veto_percent2 >= 40.0;
    assert!(threshold_met3, "Should meet threshold with 45% economic");
}

#[test]
fn tier_veto_parameters_by_tier() {
    assert_eq!(tier_veto_parameters(3), (30, 40, 90));
    assert_eq!(tier_veto_parameters(4), (25, 35, 0));
    assert_eq!(tier_veto_parameters(5), (50, 60, 180));
    assert_eq!(tier_veto_parameters(1), (30, 40, 90));
}

#[test]
fn veto_state_decisions() {
    let now = 1_700_000_000_000i64;
    let d = decide_veto_state(true, 3, None, now);
    assert!(d.veto_active);
    assert_eq!(d.review_period_days, 90);
    assert_eq!(d.review_period_ends_at_ms, Some(now + 90 * 86_400_000));
    assert_eq!(d.write, VetoStateWrite::Insert { triggered_at_ms: now, review_period_days: 90, ends_at_ms: now + 90 * 86_400_000 });
    let d4 = decide_veto_state(true, 4, None, now);
    assert_eq!(d4.review_period_ends_at_ms, Some(now + 86_400_000));
    let idle = decide_veto_state(false, 5, None, now);
    assert!(!idle.veto_active);
    assert_eq!(idle.review_period_days, 180);
    assert_eq!(idle.write, VetoStateWrite::NoWrite);
    let stored = StoredVetoState {
        triggered_at_ms: Some(5),
        review_period_days: 90,
        review_period_ends_at_ms: Some(10),
        maintainer_override: 1,
        override_timestamp_ms: Some(9),
        override_by: Some("alice".to_string()),
        resolution_path: Some("override".to_string()),
    };
    let kept = decide_veto_state(true, 3, Some(stored), now);
    assert!(!kept.veto_active);
    assert!(kept.maintainer_override);
    assert_eq!(kept.write, VetoStateWrite::Update { threshold_met: true, veto_active: false });
    assert_eq!(kept.override_by.as_deref(), Some("alice"));
}

#[test]
fn consensus_after_opposition_drops() {
    let triggered = StoredVetoState {
        triggered_at_ms: Some(5),
        review_period_days: 90,
        review_period_ends_at_ms: Some(10),
        maintainer_override: 0,
        override_timestamp_ms: None,
        override_by: None,
        resolution_path: None,
    };
    // the opposition dropped below the threshold: consensus
    assert!(check_consensus_achieved(false, &Some(triggered.clone())));
    let d = decide_veto_state(false, 3, Some(triggered.clone()), 1_700_000_000_000);
    assert!(!d.veto_active);
    // still over the threshold: no consensus
    assert!(!check_consensus_achieved(true, &Some(triggered.clone())));
    // never triggered: no consensus
    assert!(!check_consensus_achieved(false, &None));
    // overridden: resolved by the maintainer, not by consensus
    let overridden = StoredVetoState { maintainer_override: 1, ..triggered };
    assert!(!check_consensus_achieved(false, &Some(overridden)));
}

#[test]
fn override_rules() {
    let err = |r: Result<(), GovernanceError>| match r {
        Err(GovernanceError::CryptoError(m)) => m,
        _ => panic!("expected an error"),
    };
    assert_eq!(err(check_override_allowed(None, 0)), "No veto state found for this PR");
    let s = StoredOverrideState { maintainer_override: 1, review_period_ends_at: Ok((0, "t".to_string())) };
    assert_eq!(err(check_override_allowed(Some(s), 5)), "Veto already overridden");
    let s = StoredOverrideState { maintainer_override: 0, review_period_ends_at: Err("bad".to_string()) };
    assert_eq!(err(check_override_allowed(Some(s), 5)), "Invalid timestamp: bad");
    let s = StoredOverrideState { maintainer_override: 0, review_period_ends_at: Ok((10, "2030-01-01".to_string())) };
    assert_eq!(err(check_override_allowed(Some(s), 5)), "Review period not ended yet. Ends at: 2030-01-01");
    let s = StoredOverrideState { maintainer_override: 0, review_period_ends_at: Ok((10, "x".to_string())) };
    assert!(check_override_allowed(Some(s), 10).is_ok());
}

#[test]
fn veto_buckets_and_signals() {
    assert_eq!(veto_bucket("mining_pool", "veto").unwrap(), Some(VetoBucket::Mining));
    assert_eq!(veto_bucket("exchange", "veto").unwrap(), Some(VetoBucket::Economic));
    assert_eq!(veto_bucket("exchange", "support").unwrap(), None);
    match veto_bucket("bank", "veto") {
        Err(GovernanceError::CryptoError(m)) => assert_eq!(m, "Invalid node type: bank"),
        _ => panic!("expected an error"),
    }
    match veto_bucket("custodian", "maybe") {
        Err(GovernanceError::CryptoError(m)) => assert_eq!(m, "Invalid signal type: maybe"),
        _ => panic!("expected an error"),
    }
    assert_eq!(veto_signal_message(42, "Acme"), "PR #42 veto signal from Acme");
    assert!(check_veto_signal_admissible(NodeStatus::Active, true, false).is_ok());
    match check_veto_signal_admissible(NodeStatus::Pending, true, false) {
        Err(GovernanceError::CryptoError(m)) => assert_eq!(m, "Node is not active"),
        _ => panic!("expected an error"),
    }
    match check_veto_signal_admissible(NodeStatus::Active, false, true) {
        Err(GovernanceError::CryptoError(m)) => assert_eq!(m, "Invalid signature"),
        _ => panic!("expected an error"),
    }
    match check_veto_signal_admissible(NodeStatus::Active, true, true) {
        Err(GovernanceError::CryptoError(m)) => assert_eq!(m, "Node already submitted signal for this PR"),
        _ => panic!("expected an error"),
    }
}

#[test]
fn vote_thresholds_per_tier() {
    assert_eq!(get_threshold_for_tier(1), Ok(100));
    assert_eq!(get_threshold_for_tier(2), Ok(500));
    assert_eq!(get_threshold_for_tier(3), Ok(1_000));
    assert_eq!(get_threshold_for_tier(4), Ok(2_500));
    assert_eq!(get_threshold_for_tier(5), Ok(5_000));
    assert_eq!(get_threshold_for_tier(0), Err("Invalid tier: 0".to_string()));
    assert_eq!(get_threshold_for_tier(6), Err("Invalid tier: 6".to_string()));
}

#[test]
fn block_reason_names_exactly_the_unmet_requirements() {
    for &r in &[false, true] {
        for &sg in &[false, true] {
            for &v in &[false, true] {
                for &tier in &[1u32, 3, 5] {
                    let s = MergeBlocker::get_block_reason(r, sg, v, tier, false);
                    assert_eq!(s.contains("Review period requirement not met"), !r);
                    assert_eq!(s.contains("Signature threshold requirement not met"), !sg);
                    assert_eq!(s.contains("Economic node veto active"), tier >= 3 && v);
                    assert_eq!(s == "All governance requirements met", r && sg && !(tier >= 3 && v));
                }
            }
        }
    }
}
