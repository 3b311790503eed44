//! Kinds of externally registered nodes (miners, pools, exchanges, ...)
//! used for fee-forwarding attribution, and their text names.
use vstd::prelude::*;
use crate::strings::{ascii_lower, lemma_ascii_lower_idempotent, lowercase_spec, str_eq, to_lowercase};

verus! {

broadcast use vstd::string::group_string_axioms;

/// Node type of a registered node.
#[derive(Debug, Clone, Copy, PartialEq, Eq, Structural)]
pub enum NodeType {
    Miner,
    Node,
    Pool,
    Exchange,
    Other,
}

/// The stored name of each node type.
pub open spec fn node_type_name(t: NodeType) -> Seq<char> {
    match t {
        NodeType::Miner => "miner"@,
        NodeType::Node => "node"@,
        NodeType::Pool => "pool"@,
        NodeType::Exchange => "exchange"@,
        NodeType::Other => "other"@,
    }
}

/// The node type a lowercase name stands for; any unknown name is `Other`.
pub open spec fn node_type_from_lower(s: Seq<char>) -> NodeType {
    if s == "miner"@ {
        NodeType::Miner
    } else if s == "node"@ {
        NodeType::Node
    } else if s == "pool"@ {
        NodeType::Pool
    } else if s == "exchange"@ {
        NodeType::Exchange
    } else {
        NodeType::Other
    }
}

impl NodeType {
    /// The stored name of the node type.
    pub fn as_str(&self) -> (res: &'static str)
        ensures
            res@ == node_type_name(*self),
    {
        match self {
            NodeType::Miner => "miner",
            NodeType::Node => "node",
            NodeType::Pool => "pool",
            NodeType::Exchange => "exchange",
            NodeType::Other => "other",
        }
    }

    /// The node type named by `s`, compared case-insensitively (Unicode
    /// lowercasing); any unknown name gives `Other`.
    pub fn from_str(s: &str) -> (res: Self)
        ensures
            res == node_type_from_lower(lowercase_spec(s@)),
            vstd::utf8::is_ascii_chars(s@) ==> res == node_type_from_lower(ascii_lower(s@)),
    {
        let lower = to_lowercase(s);
        Self::from_lowercase(lower.as_str())
    }

    /// The node type named by an already lowercased name; any unknown name
    /// gives `Other`.
    pub fn from_lowercase(lower: &str) -> (res: Self)
        ensures
            res == node_type_from_lower(lower@),
    {
        if str_eq(lower, "miner") {
            NodeType::Miner
        } else if str_eq(lower, "node") {
            NodeType::Node
        } else if str_eq(lower, "pool") {
            NodeType::Pool
        } else if str_eq(lower, "exchange") {
            NodeType::Exchange
        } else {
            NodeType::Other
        }
    }
}

/// Reading back a node type's stored name gives the same node type.
pub proof fn lemma_node_type_name_round_trip(t: NodeType)
    ensures
        node_type_from_lower(node_type_name(t)) == t,
        node_type_from_lower(ascii_lower(node_type_name(t))) == t,
        vstd::utf8::is_ascii_chars(node_type_name(t)),
        ascii_lower(node_type_name(t)) == node_type_name(t),
{
    reveal_strlit("miner");
    reveal_strlit("node");
    reveal_strlit("pool");
    reveal_strlit("exchange");
    reveal_strlit("other");
    let n = node_type_name(t);
    assert(ascii_lower(n) =~= n);
    match t {
        NodeType::Miner => {},
        NodeType::Node => {
            assert("node"@.len() != "miner"@.len());
        },
        NodeType::Pool => {
            assert("pool"@.len() != "miner"@.len());
            assert("pool"@[0] != "node"@[0]);
        },
        NodeType::Exchange => {
            assert("exchange"@.len() != "miner"@.len());
            assert("exchange"@.len() != "node"@.len());
        },
        NodeType::Other => {
            assert("other"@[0] != "miner"@[0]);
            assert("other"@.len() != "node"@.len());
            assert("other"@.len() != "exchange"@.len());
        },
    }
}

/// Parsing ASCII text is case-insensitive: the text and its lowercasing
/// (itself ASCII) name the same node type.
pub proof fn lemma_node_type_parse_case_insensitive(s: Seq<char>)
    requires
        vstd::utf8::is_ascii_chars(s),
    ensures
        vstd::utf8::is_ascii_chars(ascii_lower(s)),
        node_type_from_lower(ascii_lower(ascii_lower(s))) == node_type_from_lower(ascii_lower(s)),
{
    lemma_ascii_lower_idempotent(s);
}

/// The names a node type is read from: "miner", "node", "pool" and
/// "exchange" name their types; every other name is `Other`.
pub proof fn lemma_node_type_names(w: Seq<char>)
    ensures
        w == "miner"@ ==> node_type_from_lower(w) == NodeType::Miner,
        w == "node"@ ==> node_type_from_lower(w) == NodeType::Node,
        w == "pool"@ ==> node_type_from_lower(w) == NodeType::Pool,
        w == "exchange"@ ==> node_type_from_lower(w) == NodeType::Exchange,
        w != "miner"@ && w != "node"@ && w != "pool"@ && w != "exchange"@ ==> node_type_from_lower(w) == NodeType::Other,
{
    reveal_strlit("miner");
    reveal_strlit("node");
    reveal_strlit("pool");
    reveal_strlit("exchange");
    assert("node"@.len() != "miner"@.len() && "pool"@.len() != "miner"@.len() && "pool"@[0] != "node"@[0]);
    assert("exchange"@.len() != "miner"@.len() && "exchange"@.len() != "node"@.len() && "exchange"@.len() != "pool"@.len());
}

} // verus!
