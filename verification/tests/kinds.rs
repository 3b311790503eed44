use bllvm_commons::qualification::{contributor_qualified, verify_commons_contributor_qualification};
use bllvm_commons::economic_types::{NodeStatus, NodeType as EconomicNodeType, SignalType};
use bllvm_commons::node_registry::NodeType;
use bllvm_commons::zap_voting::{parse_vote_type_from_message, vote_type_from_lower_message, VoteType};

#[test]
fn registry_node_type_names() {
    for t in [NodeType::Miner, NodeType::Node, NodeType::Pool, NodeType::Exchange, NodeType::Other] {
        assert_eq!(NodeType::from_str(t.as_str()), t);
    }
    assert_eq!(NodeType::from_str("MINER"), NodeType::Miner);
    assert_eq!(NodeType::from_str("Pool"), NodeType::Pool);
    assert_eq!(NodeType::from_str("something"), NodeType::Other);
    assert_eq!(NodeType::from_lowercase("exchange"), NodeType::Exchange);
    assert_eq!(NodeType::from_lowercase("Exchange"), NodeType::Other);
}

#[test]
fn vote_type_names() {
    for t in [VoteType::Support, VoteType::Veto, VoteType::Abstain] {
        assert_eq!(VoteType::from_str(t.as_str()), t);
    }
    assert_eq!(VoteType::from_str("OPPOSE"), VoteType::Veto);
    assert_eq!(VoteType::from_str("Against"), VoteType::Veto);
    assert_eq!(VoteType::from_str("neutral"), VoteType::Abstain);
    assert_eq!(VoteType::from_str("yes please"), VoteType::Support);
}

#[test]
fn vote_type_from_messages() {
    assert_eq!(parse_vote_type_from_message("I VETO this change"), VoteType::Veto);
    assert_eq!(parse_vote_type_from_message("strongly against it"), VoteType::Veto);
    assert_eq!(parse_vote_type_from_message("Neutral for now"), VoteType::Abstain);
    assert_eq!(parse_vote_type_from_message("abstain, but veto later"), VoteType::Veto);
    assert_eq!(parse_vote_type_from_message("great work"), VoteType::Support);
    assert_eq!(parse_vote_type_from_message(""), VoteType::Support);
    assert_eq!(vote_type_from_lower_message("Veto"), VoteType::Support);
}

#[test]
fn economic_names_round_trip() {
    for t in [
        EconomicNodeType::MiningPool,
        EconomicNodeType::Exchange,
        EconomicNodeType::Custodian,
        EconomicNodeType::PaymentProcessor,
        EconomicNodeType::MajorHolder,
        EconomicNodeType::CommonsContributor,
    ] {
        assert_eq!(EconomicNodeType::from_str(t.as_str()), Some(t));
    }
    assert_eq!(EconomicNodeType::from_str("Exchange"), None);
    for s in [NodeStatus::Pending, NodeStatus::Active, NodeStatus::Suspended, NodeStatus::Removed] {
        assert_eq!(NodeStatus::from_str(s.as_str()), Some(s));
    }
    assert_eq!(NodeStatus::from_str("gone"), None);
    for s in [SignalType::Veto, SignalType::Support, SignalType::Abstain] {
        assert_eq!(SignalType::from_str(s.as_str()), Some(s));
    }
    assert_eq!(SignalType::from_str("VETO"), None);
    assert_eq!(EconomicNodeType::CommonsContributor.as_str(), "commons_contributor");
}

#[test]
fn contributor_qualification_logic() {
    let checks = vec![(true, true), (true, false), (false, true), (false, false)];
    assert!(contributor_qualified("OR", &checks));
    assert!(!contributor_qualified("AND", &checks));
    assert!(contributor_qualified("XOR", &checks));
    let all_met = vec![(true, true), (true, true), (false, false)];
    assert!(contributor_qualified("AND", &all_met));
    let none_met = vec![(true, false), (false, true)];
    assert!(!contributor_qualified("OR", &none_met));
    assert!(!contributor_qualified("AND", &none_met));
    let none_enabled: Vec<(bool, bool)> = vec![(false, true)];
    assert!(contributor_qualified("AND", &none_enabled));
    assert!(!contributor_qualified("OR", &none_enabled));
}

#[test]
fn contributor_without_proof_never_qualifies() {
    let checks = vec![(true, true), (true, true)];
    assert!(!verify_commons_contributor_qualification(Some("OR"), None));
    assert!(!verify_commons_contributor_qualification(None, None));
    assert!(verify_commons_contributor_qualification(Some("AND"), Some(&checks)));
    let one_met = vec![(true, true), (true, false)];
    assert!(!verify_commons_contributor_qualification(Some("AND"), Some(&one_met)));
    assert!(verify_commons_contributor_qualification(None, Some(&one_met)));
    let none_met = vec![(true, false), (true, false), (true, false)];
    assert!(!verify_commons_contributor_qualification(None, Some(&none_met)));
}
