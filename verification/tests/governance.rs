use sha2::{Digest, Sha256};
use bllvm_commons::economic_types::SignalType;
use bllvm_commons::merkle::{build_veto_merkle_tree, verify_merkle_proof, CountedSignal, MerkleProof};
use bllvm_commons::phase::{current_phase, determine_phase_by_contributors, determine_phase_by_height, determine_phase_by_nodes, mining_pool_weight_cap_percent, phase_veto_thresholds, tier_4_threshold, GovernancePhase};
use bllvm_commons::time_lock::{check_time_lock, lock_end, min_duration_hours, time_remaining, TimeLockHours, TimeLockStatus};
use bllvm_commons::yaml_config::{
    ActionTiersYaml, EmergencyRequirementsYaml, EmergencyTierDetailYaml, EmergencyTiersYaml, LayerYaml,
    RepositoryLayersYaml, SignatureYaml, TierYaml, YamlConfigLoader,
};
use bllvm_commons::error::GovernanceError;
use std::path::PathBuf;

fn create_test_signal(pr_id: i32, voting_key: &str, weight: f64) -> CountedSignal {
    CountedSignal {
        pr_id,
        signal_type: SignalType::Veto,
        weight_text: format!("{}", weight),
        timestamp_text: "2024-01-01T00:00:00+00:00".to_string(),
        voting_public_key: Some(voting_key.to_string()),
    }
}

fn proof_for<'a>(proofs: &'a [(String, MerkleProof)], key: &str) -> Option<&'a MerkleProof> {
    proofs.iter().find(|(k, _)| k == key).map(|(_, p)| p)
}

#[test]
fn test_build_merkle_tree_single_signal() {
    let signals = vec![create_test_signal(123, "pubkey1", 0.5)];
    let (_root_hash, proofs) = build_veto_merkle_tree(&signals).unwrap();
    assert_eq!(proofs.len(), 1);
    assert!(proof_for(&proofs, "pubkey1").is_some());
}

#[test]
fn test_build_merkle_tree_multiple_signals() {
    let signals = vec![
        create_test_signal(123, "pubkey1", 0.5),
        create_test_signal(123, "pubkey2", 0.3),
        create_test_signal(123, "pubkey3", 0.2),
    ];
    let (_root_hash, proofs) = build_veto_merkle_tree(&signals).unwrap();
    assert_eq!(proofs.len(), 3);
    assert!(proof_for(&proofs, "pubkey1").is_some());
    assert!(proof_for(&proofs, "pubkey2").is_some());
    assert!(proof_for(&proofs, "pubkey3").is_some());
}

#[test]
fn test_verify_merkle_proof() {
    let signals = vec![
        create_test_signal(123, "pubkey1", 0.5),
        create_test_signal(123, "pubkey2", 0.3),
    ];
    let (_root_hash, proofs) = build_veto_merkle_tree(&signals).unwrap();
    let proof = proof_for(&proofs, "pubkey1").unwrap();
    assert!(verify_merkle_proof(proof));
}

#[test]
fn test_verify_merkle_proof_invalid() {
    let signals = vec![create_test_signal(123, "pubkey1", 0.5)];
    let (_root_hash, proofs) = build_veto_merkle_tree(&signals).unwrap();
    let mut proof = proof_for(&proofs, "pubkey1").unwrap().clone();
    proof.root_hash = "invalid".to_string();
    assert!(!verify_merkle_proof(&proof));
}

#[test]
fn merkle_every_proof_verifies_and_names_the_root() {
    let signals: Vec<CountedSignal> = (0..5).map(|i| create_test_signal(7, &format!("key{}", i), 0.1)).collect();
    let (root, proofs) = build_veto_merkle_tree(&signals).unwrap();
    assert_eq!(proofs.len(), 5);
    for (_, p) in &proofs {
        assert!(verify_merkle_proof(p));
        assert_eq!(p.root_hash, hex::encode(root));
        assert_eq!(p.path.len(), 3);
    }
}

#[test]
fn merkle_leaf_text_and_root_values() {
    let signals = vec![create_test_signal(123, "pubkey1", 0.5)];
    let (root, proofs) = build_veto_merkle_tree(&signals).unwrap();
    let signal_hash = Sha256::digest(b"123:veto:0.5:2024-01-01T00:00:00+00:00");
    let leaf_text = format!("pubkey1:{}", hex::encode(signal_hash));
    assert_eq!(proofs[0].1.leaf_data, leaf_text);
    let leaf: [u8; 32] = Sha256::digest(leaf_text.as_bytes()).into();
    let mut both = leaf.to_vec();
    both.extend_from_slice(&leaf);
    let expected: [u8; 32] = Sha256::digest(&both).into();
    assert_eq!(root, expected);
}

#[test]
fn merkle_shared_key_keeps_last_signal() {
    let signals = vec![
        create_test_signal(1, "same", 0.5),
        create_test_signal(2, "other", 0.5),
        create_test_signal(3, "same", 0.5),
    ];
    let (_root, proofs) = build_veto_merkle_tree(&signals).unwrap();
    assert_eq!(proofs.len(), 2);
    let p = proof_for(&proofs, "same").unwrap();
    assert!(verify_merkle_proof(p));
    let signal_hash = {
            Sha256::digest(b"3:veto:0.5:2024-01-01T00:00:00+00:00")
    };
    assert_eq!(p.leaf_data, format!("same:{}", hex::encode(signal_hash)));
}

#[test]
fn merkle_errors() {
    match build_veto_merkle_tree(&vec![]) {
        Err(GovernanceError::CryptoError(m)) => assert_eq!(m, "Cannot build Merkle tree from empty signal list"),
        _ => panic!("expected an error"),
    }
    let mut s = create_test_signal(1, "k", 0.5);
    s.voting_public_key = None;
    match build_veto_merkle_tree(&vec![create_test_signal(1, "a", 0.5), s]) {
        Err(GovernanceError::CryptoError(m)) => assert_eq!(m, "Signal missing voting_public_key"),
        _ => panic!("expected an error"),
    }
}

#[test]
fn merkle_tampered_path_fails() {
    let signals = vec![create_test_signal(1, "a", 0.5), create_test_signal(1, "b", 0.5)];
    let (_root, proofs) = build_veto_merkle_tree(&signals).unwrap();
    let mut p = proof_for(&proofs, "a").unwrap().clone();
    p.path[0].1 = !p.path[0].1;
    assert!(!verify_merkle_proof(&p));
    let mut q = proof_for(&proofs, "b").unwrap().clone();
    q.path[0].0 = "00".to_string();
    assert!(!verify_merkle_proof(&q));
    let mut r = proof_for(&proofs, "b").unwrap().clone();
    r.leaf_data.push('x');
    assert!(!verify_merkle_proof(&r));
}

#[test]
fn test_extract_tier_number() {
    let loader = YamlConfigLoader::new(PathBuf::from("/tmp"));
    assert_eq!(loader.extract_tier_number("tier_1_routine").unwrap(), 1);
    assert_eq!(loader.extract_tier_number("tier_5_governance").unwrap(), 5);
}

#[test]
fn test_parse_threshold_pair() {
    let loader = YamlConfigLoader::new(PathBuf::from("/tmp"));
    assert_eq!(loader.parse_threshold_pair("4-of-7").unwrap(), (4, 7));
    assert_eq!(loader.parse_threshold_pair("5 of 7").unwrap(), (5, 7));
    assert_eq!(loader.parse_threshold_pair("6/7").unwrap(), (6, 7));
}

#[test]
fn tier_and_layer_key_errors() {
    let loader = YamlConfigLoader::new(PathBuf::from("/tmp"));
    match loader.extract_tier_number("level_1") {
        Err(GovernanceError::ConfigError(m)) => assert_eq!(m, "Invalid tier key format: level_1"),
        _ => panic!("expected an error"),
    }
    assert!(loader.extract_tier_number("tier_x_routine").is_err());
    assert_eq!(loader.extract_tier_number("tier_+7").unwrap(), 7);
    assert!(loader.extract_tier_number("tier_4294967296").is_err());
    assert_eq!(loader.extract_emergency_tier_number("tier_2_urgent").unwrap(), 2);
    match loader.extract_emergency_tier_number("tier_") {
        Err(GovernanceError::ConfigError(m)) => assert_eq!(m, "Invalid emergency tier key format: tier_"),
        _ => panic!("expected an error"),
    }
    assert_eq!(loader.extract_layer_number("layer_1_constitutional").unwrap(), "1_2");
    assert_eq!(loader.extract_layer_number("layer_2_core").unwrap(), "1_2");
    assert_eq!(loader.extract_layer_number("layer_3_implementation").unwrap(), "3");
    assert!(loader.extract_layer_number("tier_3").is_err());
}

#[test]
fn threshold_pair_errors() {
    let loader = YamlConfigLoader::new(PathBuf::from("/tmp"));
    match loader.parse_threshold_pair("7") {
        Err(GovernanceError::ConfigError(m)) => assert_eq!(m, "Invalid threshold format: 7 (expected 'N-of-M')"),
        _ => panic!("expected an error"),
    }
    match loader.parse_threshold_pair("x-of-7") {
        Err(GovernanceError::ConfigError(m)) => assert_eq!(m, "Invalid threshold N value: x-of-7"),
        _ => panic!("expected an error"),
    }
    match loader.parse_threshold_pair("3-of-") {
        Err(GovernanceError::ConfigError(m)) => assert_eq!(m, "Invalid threshold M value: 3-of-"),
        _ => panic!("expected an error"),
    }
    assert_eq!(loader.parse_threshold_pair("\t3\t/\t9\t").unwrap(), (3, 9));
}

fn tier(required: u32, total: u32, days: i64) -> TierYaml {
    TierYaml {
        name: "t".to_string(),
        description: String::new(),
        signatures: SignatureYaml { required, total },
        review_period_days: days,
        economic_veto: false,
        emergency_override: false,
    }
}

#[test]
fn action_tier_values_are_flattened() {
    let loader = YamlConfigLoader::new(PathBuf::from("/tmp"));
    let tiers = ActionTiersYaml {
        tiers: vec![("tier_3_consensus_adjacent".to_string(), tier(5, 7, 90))],
        emergency_tiers: None,
    };
    let mut values: Vec<(String, i64)> = Vec::new();
    loader.extract_action_tier_values(&tiers, &mut values).unwrap();
    assert_eq!(
        values,
        vec![
            ("tier_3_signatures_required".to_string(), 5),
            ("tier_3_signatures_total".to_string(), 7),
            ("tier_3_review_period_days".to_string(), 90),
        ]
    );
    let bad = ActionTiersYaml {
        tiers: vec![("tier_1_routine".to_string(), tier(3, 5, 7)), ("bogus".to_string(), tier(1, 1, 1))],
        emergency_tiers: None,
    };
    let mut values: Vec<(String, i64)> = Vec::new();
    assert!(loader.extract_action_tier_values(&bad, &mut values).is_err());
    assert_eq!(values.len(), 3);
}

#[test]
fn layer_and_emergency_values_are_flattened() {
    let loader = YamlConfigLoader::new(PathBuf::from("/tmp"));
    let layers = RepositoryLayersYaml {
        layers: vec![(
            "layer_2_core".to_string(),
            LayerYaml {
                name: "core".to_string(),
                description: String::new(),
                signatures: SignatureYaml { required: 6, total: 7 },
                review_period_days: 180,
                consensus_review_period_days: None,
            },
        )],
    };
    let mut values: Vec<(String, i64)> = Vec::new();
    loader.extract_repository_layer_values(&layers, &mut values).unwrap();
    assert_eq!(values[0], ("layer_1_2_signatures_required".to_string(), 6));
    assert_eq!(values[2], ("layer_1_2_review_period_days".to_string(), 180));

    let emergency = EmergencyTiersYaml {
        tiers: vec![(
            "tier_1_critical".to_string(),
            EmergencyTierDetailYaml {
                name: "critical".to_string(),
                description: String::new(),
                requirements: EmergencyRequirementsYaml {
                    review_period_days: 0,
                    signature_threshold: "4-of-7".to_string(),
                    max_duration_days: 7,
                    activation_threshold: "5/7".to_string(),
                    max_extensions: Some(0),
                },
            },
        )],
    };
    let mut values: Vec<(String, i64)> = Vec::new();
    loader.extract_emergency_tier_values(&emergency, &mut values).unwrap();
    let keys: Vec<&str> = values.iter().map(|(k, _)| k.as_str()).collect();
    assert_eq!(
        keys,
        vec![
            "emergency_tier_1_review_period_days",
            "emergency_tier_1_max_duration_days",
            "emergency_tier_1_signature_threshold_n",
            "emergency_tier_1_signature_threshold_m",
            "emergency_tier_1_activation_threshold_n",
            "emergency_tier_1_activation_threshold_m",
            "emergency_tier_1_max_extensions",
        ]
    );
    assert_eq!(values[2].1, 4);
    assert_eq!(values[5].1, 7);
}

#[test]
fn phase_thresholds() {
    assert_eq!(determine_phase_by_height(49_999), GovernancePhase::Early);
    assert_eq!(determine_phase_by_height(50_000), GovernancePhase::Growth);
    assert_eq!(determine_phase_by_height(200_000), GovernancePhase::Mature);
    assert_eq!(determine_phase_by_nodes(9), GovernancePhase::Early);
    assert_eq!(determine_phase_by_nodes(29), GovernancePhase::Growth);
    assert_eq!(determine_phase_by_nodes(30), GovernancePhase::Mature);
    assert_eq!(determine_phase_by_contributors(99), GovernancePhase::Growth);
    assert_eq!(determine_phase_by_contributors(100), GovernancePhase::Mature);
    assert_eq!(current_phase(300_000, 50, 5), GovernancePhase::Early);
    assert_eq!(current_phase(300_000, 15, 500), GovernancePhase::Growth);
    assert_eq!(current_phase(300_000, 50, 500), GovernancePhase::Mature);
    assert_eq!(GovernancePhase::Growth.as_str(), "growth");
    assert_eq!(tier_4_threshold(GovernancePhase::Mature), 5);
}

#[test]
fn time_lock_rules() {
    let hours = TimeLockHours::default_hours();
    assert_eq!(min_duration_hours(&hours, 3), 168);
    assert_eq!(min_duration_hours(&hours, 4), 336);
    assert_eq!(min_duration_hours(&hours, 5), 720);
    assert_eq!(min_duration_hours(&hours, 9), 720);
    assert_eq!(lock_end(1_000, 1), 3_601_000);
    assert_eq!(check_time_lock(None, 0), TimeLockStatus::Cancelled);
    assert_eq!(check_time_lock(Some(("activated", 10)), 0), TimeLockStatus::Activated);
    assert_eq!(check_time_lock(Some(("cancelled", 10)), 0), TimeLockStatus::Cancelled);
    assert_eq!(check_time_lock(Some(("pending", 10)), 9), TimeLockStatus::Pending);
    assert_eq!(check_time_lock(Some(("pending", 10)), 10), TimeLockStatus::Ready);
    assert_eq!(time_remaining(10, 4), 6);
    assert_eq!(time_remaining(10, 40), 0);
}

#[test]
fn adaptive_parameters_per_phase() {
    assert_eq!(phase_veto_thresholds(GovernancePhase::Early), (25, 35));
    assert_eq!(phase_veto_thresholds(GovernancePhase::Growth), (30, 40));
    assert_eq!(phase_veto_thresholds(GovernancePhase::Mature), (35, 45));
    assert_eq!(mining_pool_weight_cap_percent(GovernancePhase::Early), 10);
    assert_eq!(mining_pool_weight_cap_percent(GovernancePhase::Growth), 20);
    assert_eq!(mining_pool_weight_cap_percent(GovernancePhase::Mature), 10);
}
