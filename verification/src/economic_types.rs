//! Economic node kinds, registry statuses, signal kinds, and the per-block
//! and per-event proof records that back a commons contributor's claim.
use vstd::prelude::*;
use crate::strings::str_eq;

verus! {

broadcast use vstd::string::group_string_axioms;

/// Types of economic nodes that can participate in governance.
#[derive(Debug, Clone, Copy, PartialEq, Eq, Structural)]
pub enum NodeType {
    MiningPool,
    Exchange,
    Custodian,
    PaymentProcessor,
    MajorHolder,
    /// Nodes contributing through merge mining, fee forwarding, zaps and the like.
    CommonsContributor,
}

/// The stored name of each economic node type.
pub open spec fn node_type_name(t: NodeType) -> Seq<char> {
    match t {
        NodeType::MiningPool => "mining_pool"@,
        NodeType::Exchange => "exchange"@,
        NodeType::Custodian => "custodian"@,
        NodeType::PaymentProcessor => "payment_processor"@,
        NodeType::MajorHolder => "major_holder"@,
        NodeType::CommonsContributor => "commons_contributor"@,
    }
}

/// The economic node type with stored name `s`, if any.
pub open spec fn node_type_from_name(s: Seq<char>) -> Option<NodeType> {
    if s == "mining_pool"@ {
        Some(NodeType::MiningPool)
    } else if s == "exchange"@ {
        Some(NodeType::Exchange)
    } else if s == "custodian"@ {
        Some(NodeType::Custodian)
    } else if s == "payment_processor"@ {
        Some(NodeType::PaymentProcessor)
    } else if s == "major_holder"@ {
        Some(NodeType::MajorHolder)
    } else if s == "commons_contributor"@ {
        Some(NodeType::CommonsContributor)
    } else {
        None
    }
}

impl NodeType {
    /// The stored name of the node type.
    pub fn as_str(&self) -> (res: &'static str)
        ensures
            res@ == node_type_name(*self),
    {
        match self {
            NodeType::MiningPool => "mining_pool",
            NodeType::Exchange => "exchange",
            NodeType::Custodian => "custodian",
            NodeType::PaymentProcessor => "payment_processor",
            NodeType::MajorHolder => "major_holder",
            NodeType::CommonsContributor => "commons_contributor",
        }
    }

    /// The node type with stored name `s` (exact, case-sensitive match).
    pub fn from_str(s: &str) -> (res: Option<Self>)
        ensures
            res == node_type_from_name(s@),
    {
        if str_eq(s, "mining_pool") {
            Some(NodeType::MiningPool)
        } else if str_eq(s, "exchange") {
            Some(NodeType::Exchange)
        } else if str_eq(s, "custodian") {
            Some(NodeType::Custodian)
        } else if str_eq(s, "payment_processor") {
            Some(NodeType::PaymentProcessor)
        } else if str_eq(s, "major_holder") {
            Some(NodeType::MajorHolder)
        } else if str_eq(s, "commons_contributor") {
            Some(NodeType::CommonsContributor)
        } else {
            None
        }
    }
}

/// The whole-number qualification minimums of a node type: holdings in
/// BTC, volume in USD and monthly transactions (the fractional minimums,
/// such as hashpower percent, are kept beside these by the caller).
pub open spec fn integer_minimums_spec(t: NodeType) -> (Option<u64>, Option<u64>, Option<u64>) {
    match t {
        NodeType::Exchange => (Some(10_000), Some(100_000_000), None),
        NodeType::Custodian => (Some(10_000), None, None),
        NodeType::PaymentProcessor => (None, Some(50_000_000), None),
        NodeType::MajorHolder => (Some(5_000), None, None),
        _ => (None, None, None),
    }
}

impl NodeType {
    /// Minimum holdings (BTC), daily or monthly volume (USD) and monthly
    /// transactions required of this node type, where it has one.
    pub fn integer_minimums(&self) -> (res: (Option<u64>, Option<u64>, Option<u64>))
        ensures
            res == integer_minimums_spec(*self),
    {
        match self {
            NodeType::Exchange => (Some(10_000), Some(100_000_000), None),
            NodeType::Custodian => (Some(10_000), None, None),
            NodeType::PaymentProcessor => (None, Some(50_000_000), None),
            NodeType::MajorHolder => (Some(5_000), None, None),
            _ => (None, None, None),
        }
    }
}

/// Node status in the registry.
#[derive(Debug, Clone, Copy, PartialEq, Eq, Structural)]
pub enum NodeStatus {
    Pending,
    Active,
    Suspended,
    Removed,
}

/// The stored name of each node status.
pub open spec fn node_status_name(t: NodeStatus) -> Seq<char> {
    match t {
        NodeStatus::Pending => "pending"@,
        NodeStatus::Active => "active"@,
        NodeStatus::Suspended => "suspended"@,
        NodeStatus::Removed => "removed"@,
    }
}

/// The node status with stored name `s`, if any.
pub open spec fn node_status_from_name(s: Seq<char>) -> Option<NodeStatus> {
    if s == "pending"@ {
        Some(NodeStatus::Pending)
    } else if s == "active"@ {
        Some(NodeStatus::Active)
    } else if s == "suspended"@ {
        Some(NodeStatus::Suspended)
    } else if s == "removed"@ {
        Some(NodeStatus::Removed)
    } else {
        None
    }
}

impl NodeStatus {
    /// The stored name of the status.
    pub fn as_str(&self) -> (res: &'static str)
        ensures
            res@ == node_status_name(*self),
    {
        match self {
            NodeStatus::Pending => "pending",
            NodeStatus::Active => "active",
            NodeStatus::Suspended => "suspended",
            NodeStatus::Removed => "removed",
        }
    }

    /// The status with stored name `s` (exact match).
    pub fn from_str(s: &str) -> (res: Option<Self>)
        ensures
            res == node_status_from_name(s@),
    {
        if str_eq(s, "pending") {
            Some(NodeStatus::Pending)
        } else if str_eq(s, "active") {
            Some(NodeStatus::Active)
        } else if str_eq(s, "suspended") {
            Some(NodeStatus::Suspended)
        } else if str_eq(s, "removed") {
            Some(NodeStatus::Removed)
        } else {
            None
        }
    }
}

/// Type of signal from an economic node.
#[derive(Debug, Clone, Copy, PartialEq, Eq, Structural)]
pub enum SignalType {
    Veto,
    Support,
    Abstain,
}

/// The stored name of each signal type.
pub open spec fn signal_type_name(t: SignalType) -> Seq<char> {
    match t {
        SignalType::Veto => "veto"@,
        SignalType::Support => "support"@,
        SignalType::Abstain => "abstain"@,
    }
}

/// The signal type with stored name `s`, if any.
pub open spec fn signal_type_from_name(s: Seq<char>) -> Option<SignalType> {
    if s == "veto"@ {
        Some(SignalType::Veto)
    } else if s == "support"@ {
        Some(SignalType::Support)
    } else if s == "abstain"@ {
        Some(SignalType::Abstain)
    } else {
        None
    }
}

impl SignalType {
    /// The stored name of the signal type.
    pub fn as_str(&self) -> (res: &'static str)
        ensures
            res@ == signal_type_name(*self),
    {
        match self {
            SignalType::Veto => "veto",
            SignalType::Support => "support",
            SignalType::Abstain => "abstain",
        }
    }

    /// The signal type with stored name `s` (exact match).
    pub fn from_str(s: &str) -> (res: Option<Self>)
        ensures
            res == signal_type_from_name(s@),
    {
        if str_eq(s, "veto") {
            Some(SignalType::Veto)
        } else if str_eq(s, "support") {
            Some(SignalType::Support)
        } else if str_eq(s, "abstain") {
            Some(SignalType::Abstain)
        } else {
            None
        }
    }
}

/// A stored name reads back as exactly the node type that wrote it, and a
/// name that reads as a node type is that type's stored name.
pub proof fn lemma_node_type_names(t: NodeType, s: Seq<char>)
    ensures
        node_type_from_name(node_type_name(t)) == Some(t),
        node_type_from_name(s) == Some(t) ==> s == node_type_name(t),
{
    reveal_strlit("mining_pool");
    reveal_strlit("exchange");
    reveal_strlit("custodian");
    reveal_strlit("payment_processor");
    reveal_strlit("major_holder");
    reveal_strlit("commons_contributor");
    assert("mining_pool"@[0] != "exchange"@[0]);
    assert("mining_pool"@[0] != "custodian"@[0]);
    assert("mining_pool"@[0] != "payment_processor"@[0]);
    assert("mining_pool"@[1] != "major_holder"@[1]);
    assert("mining_pool"@[0] != "commons_contributor"@[0]);
    assert("exchange"@[0] != "custodian"@[0]);
    assert("exchange"@[0] != "payment_processor"@[0]);
    assert("exchange"@[0] != "major_holder"@[0]);
    assert("exchange"@[0] != "commons_contributor"@[0]);
    assert("custodian"@[0] != "payment_processor"@[0]);
    assert("custodian"@[0] != "major_holder"@[0]);
    assert("custodian"@[1] != "commons_contributor"@[1]);
    assert("payment_processor"@[0] != "major_holder"@[0]);
    assert("payment_processor"@[0] != "commons_contributor"@[0]);
    assert("major_holder"@[0] != "commons_contributor"@[0]);
}

/// A stored name reads back as exactly the status that wrote it, and a name
/// that reads as a status is that status's stored name.
pub proof fn lemma_node_status_names(t: NodeStatus, s: Seq<char>)
    ensures
        node_status_from_name(node_status_name(t)) == Some(t),
        node_status_from_name(s) == Some(t) ==> s == node_status_name(t),
{
    reveal_strlit("pending");
    reveal_strlit("active");
    reveal_strlit("suspended");
    reveal_strlit("removed");
    assert("pending"@[0] != "active"@[0]);
    assert("pending"@[0] != "suspended"@[0]);
    assert("pending"@[0] != "removed"@[0]);
    assert("active"@[0] != "suspended"@[0]);
    assert("active"@[0] != "removed"@[0]);
    assert("suspended"@[0] != "removed"@[0]);
}

/// A stored name reads back as exactly the signal type that wrote it, and a
/// name that reads as a signal type is that type's stored name.
pub proof fn lemma_signal_type_names(t: SignalType, s: Seq<char>)
    ensures
        signal_type_from_name(signal_type_name(t)) == Some(t),
        signal_type_from_name(s) == Some(t) ==> s == signal_type_name(t),
{
    reveal_strlit("veto");
    reveal_strlit("support");
    reveal_strlit("abstain");
    assert("veto"@[0] != "support"@[0]);
    assert("veto"@[0] != "abstain"@[0]);
    assert("support"@[0] != "abstain"@[0]);
}

/// Merge mining block proof.
#[derive(Debug, Clone)]
pub struct MergeMiningBlockProof {
    pub block_hash: String,
    pub chain_id: String,
    /// Commons fee paid in the block, in satoshis.
    pub commons_fee_amount: u64,
    pub coinbase_signature: String,
}

/// Fee forwarding block proof.
#[derive(Debug, Clone)]
pub struct FeeForwardingBlockProof {
    pub block_hash: String,
    pub block_height: u32,
    /// Amount forwarded to the commons, in satoshis.
    pub forwarded_amount: u64,
    pub commons_address: String,
    pub tx_hash: String,
}

/// Zap event proof.
#[derive(Debug, Clone)]
pub struct ZapEventProof {
    pub nostr_event_id: String,
    /// Zap amount, in satoshis.
    pub zap_amount: u64,
    pub payment_hash: String,
    pub timestamp: i64,
}

/// Contact details of an economic node operator.
#[derive(Debug, Clone)]
pub struct ContactInfo {
    pub entity_name: String,
    pub contact_email: String,
    pub website: Option<String>,
    pub github_username: Option<String>,
}

} // verus!
