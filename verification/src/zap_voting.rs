//! Zap-to-vote rules: the kinds of vote a zap can carry and how a vote kind
//! is read from a stored name or from the zap's message.
use vstd::prelude::*;
use crate::strings::{ascii_lower, lemma_ascii_lower_idempotent, contains_substring, contains_text, lowercase_spec, str_eq, to_lowercase};

verus! {

broadcast use vstd::string::group_string_axioms;

/// Vote type carried by a zap.
#[derive(Debug, Clone, Copy, PartialEq, Eq, Structural)]
pub enum VoteType {
    Support,
    Veto,
    Abstain,
}

/// The stored name of each vote type.
pub open spec fn vote_type_name(t: VoteType) -> Seq<char> {
    match t {
        VoteType::Support => "support"@,
        VoteType::Veto => "veto"@,
        VoteType::Abstain => "abstain"@,
    }
}

/// The vote type a lowercase name stands for: "veto", "oppose" and
/// "against" are a veto, "abstain" and "neutral" an abstention, and any
/// other name is support.
pub open spec fn vote_type_from_lower(s: Seq<char>) -> VoteType {
    if s == "veto"@ || s == "oppose"@ || s == "against"@ {
        VoteType::Veto
    } else if s == "abstain"@ || s == "neutral"@ {
        VoteType::Abstain
    } else {
        VoteType::Support
    }
}

/// The vote type a lowercase zap message expresses: a message that mentions
/// "veto", "oppose" or "against" anywhere is a veto; otherwise one that
/// mentions "abstain" or "neutral" is an abstention; any other is support.
pub open spec fn vote_type_of_lower_message(m: Seq<char>) -> VoteType {
    if contains_text(m, "veto"@) || contains_text(m, "oppose"@) || contains_text(m, "against"@) {
        VoteType::Veto
    } else if contains_text(m, "abstain"@) || contains_text(m, "neutral"@) {
        VoteType::Abstain
    } else {
        VoteType::Support
    }
}

impl VoteType {
    /// The stored name of the vote type.
    pub fn as_str(&self) -> (res: &'static str)
        ensures
            res@ == vote_type_name(*self),
    {
        match self {
            VoteType::Support => "support",
            VoteType::Veto => "veto",
            VoteType::Abstain => "abstain",
        }
    }

    /// The vote type named by `s`, compared case-insensitively (Unicode
    /// lowercasing); an unknown name counts as support.
    pub fn from_str(s: &str) -> (res: Self)
        ensures
            res == vote_type_from_lower(lowercase_spec(s@)),
            vstd::utf8::is_ascii_chars(s@) ==> res == vote_type_from_lower(ascii_lower(s@)),
    {
        let lower = to_lowercase(s);
        Self::from_lowercase(lower.as_str())
    }

    /// The vote type named by an already lowercased name.
    pub fn from_lowercase(lower: &str) -> (res: Self)
        ensures
            res == vote_type_from_lower(lower@),
    {
        if str_eq(lower, "veto") || str_eq(lower, "oppose") || str_eq(lower, "against") {
            VoteType::Veto
        } else if str_eq(lower, "abstain") || str_eq(lower, "neutral") {
            VoteType::Abstain
        } else {
            VoteType::Support
        }
    }
}

/// The vote type a zap message expresses, read case-insensitively.
pub fn parse_vote_type_from_message(message: &str) -> (res: VoteType)
    ensures
        res == vote_type_of_lower_message(lowercase_spec(message@)),
        vstd::utf8::is_ascii_chars(message@) ==> res == vote_type_of_lower_message(ascii_lower(message@)),
{
    let lower = to_lowercase(message);
    vote_type_from_lower_message(lower.as_str())
}

/// The vote type an already lowercased zap message expresses.
pub fn vote_type_from_lower_message(lower: &str) -> (res: VoteType)
    ensures
        res == vote_type_of_lower_message(lower@),
{
    if contains_substring(lower, "veto") || contains_substring(lower, "oppose")
        || contains_substring(lower, "against") {
        VoteType::Veto
    } else if contains_substring(lower, "abstain") || contains_substring(lower, "neutral") {
        VoteType::Abstain
    } else {
        VoteType::Support
    }
}

/// What happens to a zap offered as a vote.
#[derive(Debug, Clone, PartialEq, Eq)]
pub enum ZapVoteStep {
    /// Not a vote on this proposal.
    Skip,
    /// A vote by this sender, to be recorded unless the sender already voted.
    Record { sender_pubkey: String },
}

/// Whether a zap counts as a vote on the governance event
/// `governance_event_id`: it must be a proposal zap aimed at that event,
/// and then must name its sender.
pub fn zap_vote_step(is_proposal_zap: bool, zap_event_id: Option<&str>, governance_event_id: &str, sender_pubkey: Option<&str>) -> (res: Result<ZapVoteStep, String>)
    ensures
        !is_proposal_zap ==> res == Ok::<ZapVoteStep, String>(ZapVoteStep::Skip),
        is_proposal_zap && !(zap_event_id matches Some(z) && z@ == governance_event_id@) ==> res == Ok::<ZapVoteStep, String>(ZapVoteStep::Skip),
        is_proposal_zap && (zap_event_id matches Some(z) && z@ == governance_event_id@) ==> match sender_pubkey {
            Some(s) => res matches Ok(ZapVoteStep::Record { sender_pubkey }) && sender_pubkey@ == s@,
            None => res matches Err(m) && m@ == "Proposal zap missing sender pubkey"@,
        },
{
    if !is_proposal_zap {
        return Ok(ZapVoteStep::Skip);
    }
    match zap_event_id {
        Some(z) => {
            if !str_eq(z, governance_event_id) {
                return Ok(ZapVoteStep::Skip);
            }
        },
        None => {
            return Ok(ZapVoteStep::Skip);
        },
    }
    match sender_pubkey {
        Some(s) => Ok(ZapVoteStep::Record { sender_pubkey: String::from_str(s) }),
        None => Err(String::from_str("Proposal zap missing sender pubkey")),
    }
}

/// The vote type of a zap: from its message when it has one, support otherwise.
pub fn zap_vote_type(message: Option<&str>) -> (res: VoteType)
    ensures
        res == match message {
            Some(m) => vote_type_of_lower_message(lowercase_spec(m@)),
            None => VoteType::Support,
        },
{
    match message {
        Some(m) => parse_vote_type_from_message(m),
        None => VoteType::Support,
    }
}

/// Reading back a vote type's stored name gives the same vote type.
pub proof fn lemma_vote_type_name_round_trip(t: VoteType)
    ensures
        vote_type_from_lower(vote_type_name(t)) == t,
        vote_type_from_lower(ascii_lower(vote_type_name(t))) == t,
        vstd::utf8::is_ascii_chars(vote_type_name(t)),
        ascii_lower(vote_type_name(t)) == vote_type_name(t),
{
    reveal_strlit("support");
    reveal_strlit("veto");
    reveal_strlit("oppose");
    reveal_strlit("against");
    reveal_strlit("abstain");
    reveal_strlit("neutral");
    let n = vote_type_name(t);
    assert(ascii_lower(n) =~= n);
    match t {
        VoteType::Support => {
            assert("support"@.len() != "veto"@.len());
            assert("support"@[0] != "oppose"@[0]);
            assert("support"@[0] != "against"@[0]);
            assert("support"@[0] != "abstain"@[0]);
            assert("support"@[0] != "neutral"@[0]);
        },
        VoteType::Veto => {},
        VoteType::Abstain => {
            assert("abstain"@.len() != "veto"@.len());
            assert("abstain"@.len() != "oppose"@.len());
            assert("abstain"@[1] != "against"@[1]);
        },
    }
}

/// Parsing ASCII text is case-insensitive: the text and its lowercasing
/// (itself ASCII) name the same vote type.
pub proof fn lemma_vote_type_parse_case_insensitive(s: Seq<char>)
    requires
        vstd::utf8::is_ascii_chars(s),
    ensures
        vstd::utf8::is_ascii_chars(ascii_lower(s)),
        vote_type_from_lower(ascii_lower(ascii_lower(s))) == vote_type_from_lower(ascii_lower(s)),
{
    lemma_ascii_lower_idempotent(s);
}

/// A lowercase message is a veto when it mentions any word that names a
/// veto ("veto", "oppose", "against"); otherwise an abstention when it
/// mentions any word that names an abstention ("abstain", "neutral");
/// otherwise support.  The words are those the name parser reads.
pub proof fn lemma_message_vote_words(m: Seq<char>)
    ensures
        contains_text(m, "veto"@) ==> vote_type_of_lower_message(m) == VoteType::Veto,
        contains_text(m, "oppose"@) ==> vote_type_of_lower_message(m) == VoteType::Veto,
        contains_text(m, "against"@) ==> vote_type_of_lower_message(m) == VoteType::Veto,
        forall|w: Seq<char>| vote_type_from_lower(w) == VoteType::Veto && #[trigger] contains_text(m, w)
            ==> vote_type_of_lower_message(m) == VoteType::Veto,
        !contains_text(m, "veto"@) && !contains_text(m, "oppose"@) && !contains_text(m, "against"@)
            && (contains_text(m, "abstain"@) || contains_text(m, "neutral"@))
            ==> vote_type_of_lower_message(m) == VoteType::Abstain,
        !contains_text(m, "veto"@) && !contains_text(m, "oppose"@) && !contains_text(m, "against"@)
            && !contains_text(m, "abstain"@) && !contains_text(m, "neutral"@)
            ==> vote_type_of_lower_message(m) == VoteType::Support,
{
    assert forall|w: Seq<char>| vote_type_from_lower(w) == VoteType::Veto && #[trigger] contains_text(m, w)
        implies vote_type_of_lower_message(m) == VoteType::Veto by {
        assert(w == "veto"@ || w == "oppose"@ || w == "against"@);
    }
}

/// The names a vote type is read from: "veto", "oppose" and "against" name
/// a veto; "abstain" and "neutral" an abstention; every other name support.
pub proof fn lemma_vote_type_names(w: Seq<char>)
    ensures
        w == "veto"@ || w == "oppose"@ || w == "against"@ ==> vote_type_from_lower(w) == VoteType::Veto,
        w == "abstain"@ || w == "neutral"@ ==> vote_type_from_lower(w) == VoteType::Abstain,
        w != "veto"@ && w != "oppose"@ && w != "against"@ && w != "abstain"@ && w != "neutral"@
            ==> vote_type_from_lower(w) == VoteType::Support,
{
    reveal_strlit("veto");
    reveal_strlit("oppose");
    reveal_strlit("against");
    reveal_strlit("abstain");
    reveal_strlit("neutral");
    assert("abstain"@.len() != "veto"@.len() && "abstain"@.len() != "oppose"@.len() && "abstain"@[1] != "against"@[1]);
    assert("neutral"@.len() != "veto"@.len() && "neutral"@.len() != "oppose"@.len() && "neutral"@[0] != "against"@[0]);
}

} // verus!
