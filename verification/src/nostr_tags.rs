//! Tags and links of the Nostr events that announce governance actions.
use vstd::prelude::*;
use crate::strings::{i64_to_decimal, int_decimal, nat_digits, u64_to_decimal};

verus! {

broadcast use vstd::string::group_string_axioms;

/// The link to a pull request of a BTCDecoded repository.
pub fn pr_url(repository: &str, pr_number: i32) -> (res: String)
    ensures
        res@ == "https://github.com/BTCDecoded/"@ + repository@ + "/pull/"@ + int_decimal(pr_number as int),
{
    let mut u = String::from_str("https://github.com/BTCDecoded/");
    u.append(repository);
    u.append("/pull/");
    u.append(i64_to_decimal(pr_number as i64).as_str());
    u
}

/// The details of a governance action, as they go into its event's tags.
#[derive(Debug, Clone)]
pub struct ActionTagInput {
    /// "merge", "release", "budget" or "keyholder_change".
    pub action: String,
    pub governance_tier: u32,
    pub governance_layer: u32,
    pub repository: String,
    pub governance_config: String,
    /// e.g. "6-of-7".
    pub final_signatures: String,
    pub final_review_days: u32,
    /// Seconds since the Unix epoch.
    pub timestamp: i64,
    pub commit_hash: Option<String>,
    pub pr_number: Option<i32>,
    pub zap_address: Option<String>,
}

/// One tag: its kind and its values.
pub open spec fn tag(kind: Seq<char>, value: Seq<char>) -> (Seq<char>, Seq<Seq<char>>) {
    (kind, seq![value])
}

/// The tags of a governance action event, in order: the fixed identifier,
/// the action details, the optional commit, PR and zap tags, and the topic tags.
pub open spec fn action_tags_spec(i: ActionTagInput) -> Seq<(Seq<char>, Seq<Seq<char>>)> {
    let base = seq![
        tag("d"@, "btc-commons-governance-action"@),
        tag("action"@, i.action@),
        tag("governance_tier"@, nat_digits(i.governance_tier as nat)),
        tag("governance_layer"@, nat_digits(i.governance_layer as nat)),
        tag("repository"@, i.repository@),
        tag("governance_config"@, i.governance_config@),
        tag("final_signatures"@, i.final_signatures@),
        tag("final_review_days"@, nat_digits(i.final_review_days as nat)),
        tag("timestamp"@, int_decimal(i.timestamp as int)),
    ];
    let with_commit = match i.commit_hash { Some(h) => base.push(tag("commit_hash"@, h@)), None => base };
    let with_pr = match i.pr_number { Some(p) => with_commit.push(tag("pr_number"@, int_decimal(p as int))), None => with_commit };
    let with_zap = match i.zap_address { Some(z) => with_pr.push(tag("zap"@, z@)), None => with_pr };
    with_zap.push(("t"@, seq!["btc-commons"@, "governance"@]))
}

/// The text view of tags.
pub open spec fn tags_view(t: Seq<(String, Vec<String>)>) -> Seq<(Seq<char>, Seq<Seq<char>>)> {
    Seq::new(t.len(), |k: int| (t[k].0@, t[k].1.deep_view()))
}

fn push_tag(tags: &mut Vec<(String, Vec<String>)>, kind: &str, value: String)
    ensures
        tags_view(final(tags)@) == tags_view(old(tags)@).push(tag(kind@, value@)),
{
    let ghost t0 = tags@;
    let mut values: Vec<String> = Vec::new();
    values.push(value);
    let ghost v = values.deep_view();
    assert(v =~= seq![value@]);
    tags.push((String::from_str(kind), values));
    assert(tags_view(tags@) =~= tags_view(t0).push(tag(kind@, value@)));
}

/// The tags of a governance action event.
pub fn governance_action_tags(input: &ActionTagInput) -> (res: Vec<(String, Vec<String>)>)
    ensures
        tags_view(res@) == action_tags_spec(*input),
{
    let mut tags: Vec<(String, Vec<String>)> = Vec::new();
    push_tag(&mut tags, "d", String::from_str("btc-commons-governance-action"));
    push_tag(&mut tags, "action", input.action.clone());
    push_tag(&mut tags, "governance_tier", u64_to_decimal(input.governance_tier as u64));
    push_tag(&mut tags, "governance_layer", u64_to_decimal(input.governance_layer as u64));
    push_tag(&mut tags, "repository", input.repository.clone());
    push_tag(&mut tags, "governance_config", input.governance_config.clone());
    push_tag(&mut tags, "final_signatures", input.final_signatures.clone());
    push_tag(&mut tags, "final_review_days", u64_to_decimal(input.final_review_days as u64));
    push_tag(&mut tags, "timestamp", i64_to_decimal(input.timestamp));
    if let Some(h) = &input.commit_hash {
        push_tag(&mut tags, "commit_hash", h.clone());
    }
    if let Some(p) = input.pr_number {
        push_tag(&mut tags, "pr_number", i64_to_decimal(p as i64));
    }
    if let Some(z) = &input.zap_address {
        push_tag(&mut tags, "zap", z.clone());
    }
    let ghost t0 = tags@;
    let mut topics: Vec<String> = Vec::new();
    topics.push(String::from_str("btc-commons"));
    topics.push(String::from_str("governance"));
    assert(topics.deep_view() =~= seq!["btc-commons"@, "governance"@]);
    tags.push((String::from_str("t"), topics));
    assert(tags_view(tags@) =~= tags_view(t0).push(("t"@, seq!["btc-commons"@, "governance"@])));
    tags
}

/// The Nostr event kind of governance action events.
pub const GOVERNANCE_ACTION_KIND: u16 = 30078;

/// The tags hold a tag of kind `kind` with exactly the values `values`, and
/// every tag of that kind has those values.
pub open spec fn tag_carries(tags: Seq<(Seq<char>, Seq<Seq<char>>)>, kind: Seq<char>, values: Seq<Seq<char>>) -> bool {
    &&& exists|k: int| 0 <= k < tags.len() && #[trigger] tags[k] == (kind, values)
    &&& forall|k: int| 0 <= k < tags.len() && (#[trigger] tags[k]).0 == kind ==> tags[k].1 == values
}

/// No tag has kind `kind`.
pub open spec fn tag_absent(tags: Seq<(Seq<char>, Seq<Seq<char>>)>, kind: Seq<char>) -> bool {
    forall|k: int| 0 <= k < tags.len() ==> (#[trigger] tags[k]).0 != kind
}

/// The nine tags every governance action event starts with.
pub open spec fn fixed_action_tags(i: ActionTagInput) -> Seq<(Seq<char>, Seq<Seq<char>>)> {
    seq![
        ("d"@, seq!["btc-commons-governance-action"@]),
        ("action"@, seq![i.action@]),
        ("governance_tier"@, seq![nat_digits(i.governance_tier as nat)]),
        ("governance_layer"@, seq![nat_digits(i.governance_layer as nat)]),
        ("repository"@, seq![i.repository@]),
        ("governance_config"@, seq![i.governance_config@]),
        ("final_signatures"@, seq![i.final_signatures@]),
        ("final_review_days"@, seq![nat_digits(i.final_review_days as nat)]),
        ("timestamp"@, seq![int_decimal(i.timestamp as int)]),
    ]
}

/// Is one of the kinds of the optional tags.
pub open spec fn optional_kind(kind: Seq<char>) -> bool {
    kind == "commit_hash"@ || kind == "pr_number"@ || kind == "zap"@
}

proof fn lemma_action_tags_shape(i: ActionTagInput)
    ensures
        action_tags_spec(i).len() >= 10,
        forall|k: int| 0 <= k < 9 ==> action_tags_spec(i)[k] == #[trigger] fixed_action_tags(i)[k],
        forall|k: int| 9 <= k < action_tags_spec(i).len() - 1 ==> optional_kind(#[trigger] action_tags_spec(i)[k].0),
        action_tags_spec(i)[action_tags_spec(i).len() - 1] == ("t"@, seq!["btc-commons"@, "governance"@]),
{
    let base = fixed_action_tags(i);
    let w1 = match i.commit_hash { Some(h) => base.push(tag("commit_hash"@, h@)), None => base };
    let w2 = match i.pr_number { Some(p) => w1.push(tag("pr_number"@, int_decimal(p as int))), None => w1 };
    let w3 = match i.zap_address { Some(z) => w2.push(tag("zap"@, z@)), None => w2 };
    assert(action_tags_spec(i) == w3.push(("t"@, seq!["btc-commons"@, "governance"@])));
    assert(base.len() == 9);
    assert forall|k: int| 9 <= k < w1.len() implies optional_kind(#[trigger] w1[k].0) by {}
    assert forall|k: int| 9 <= k < w2.len() implies optional_kind(#[trigger] w2[k].0) by {
        if k < w1.len() {
            assert(w2[k] == w1[k]);
        }
    }
    assert forall|k: int| 9 <= k < w3.len() implies optional_kind(#[trigger] w3[k].0) by {
        if k < w2.len() {
            assert(w3[k] == w2[k]);
        }
    }
    assert forall|k: int| 0 <= k < 9 implies w3[k] == #[trigger] base[k] by {
        assert(w1[k] == base[k]);
        assert(w2[k] == w1[k]);
    }
}

proof fn lemma_kinds_distinct()
    ensures
        !optional_kind("d"@) && !optional_kind("action"@) && !optional_kind("governance_tier"@)
            && !optional_kind("governance_layer"@) && !optional_kind("repository"@)
            && !optional_kind("governance_config"@) && !optional_kind("final_signatures"@)
            && !optional_kind("final_review_days"@) && !optional_kind("timestamp"@) && !optional_kind("t"@),
        "commit_hash"@ != "pr_number"@ && "commit_hash"@ != "zap"@ && "pr_number"@ != "zap"@,
        "commit_hash"@ != "t"@ && "pr_number"@ != "t"@ && "zap"@ != "t"@,
        forall|k: int, l: int| 0 <= k < 9 && 0 <= l < 9 && k != l ==> seq![
            "d"@, "action"@, "governance_tier"@, "governance_layer"@, "repository"@, "governance_config"@,
            "final_signatures"@, "final_review_days"@, "timestamp"@][k] != seq![
            "d"@, "action"@, "governance_tier"@, "governance_layer"@, "repository"@, "governance_config"@,
            "final_signatures"@, "final_review_days"@, "timestamp"@][l],
        !seq!["d"@, "action"@, "governance_tier"@, "governance_layer"@, "repository"@, "governance_config"@,
            "final_signatures"@, "final_review_days"@, "timestamp"@].contains("t"@),
{
    reveal_strlit("d");
    reveal_strlit("action");
    reveal_strlit("governance_tier");
    reveal_strlit("governance_layer");
    reveal_strlit("repository");
    reveal_strlit("governance_config");
    reveal_strlit("final_signatures");
    reveal_strlit("final_review_days");
    reveal_strlit("timestamp");
    reveal_strlit("commit_hash");
    reveal_strlit("pr_number");
    reveal_strlit("zap");
    reveal_strlit("t");
    assert("d"@[0] != "t"@[0]);
    assert("governance_layer"@[0] != "final_signatures"@[0]);
    assert("governance_config"@[0] != "final_review_days"@[0]);
    assert("timestamp"@[0] != "pr_number"@[0]);
    assert("commit_hash"@.len() == 11 && "pr_number"@.len() == 9 && "zap"@.len() == 3 && "t"@.len() == 1);
    assert("d"@.len() == 1 && "action"@.len() == 6 && "governance_tier"@.len() == 15);
    assert("governance_layer"@.len() == 16 && "repository"@.len() == 10 && "governance_config"@.len() == 17);
    assert("final_signatures"@.len() == 16 && "final_review_days"@.len() == 17 && "timestamp"@.len() == 9);
    assert("commit_hash"@ != "pr_number"@ && "commit_hash"@ != "zap"@ && "pr_number"@ != "zap"@);
    assert(!optional_kind("timestamp"@));
    assert(!optional_kind("d"@) && !optional_kind("t"@));
    let ks = seq!["d"@, "action"@, "governance_tier"@, "governance_layer"@, "repository"@, "governance_config"@,
        "final_signatures"@, "final_review_days"@, "timestamp"@];
    assert forall|k: int, l: int| 0 <= k < 9 && 0 <= l < 9 && k != l implies ks[k] != ks[l] by {
        assert(ks[k].len() != ks[l].len() || ks[k][0] != ks[l][0]);
    }
    if ks.contains("t"@) {
        let k = choose|k: int| 0 <= k < ks.len() && ks[k] == "t"@;
        assert(ks[k].len() != 1 || ks[k][0] != 't');
    }
}

/// The fixed tag at position `p` is the only tag of its kind.
proof fn lemma_fixed_tag_carried(i: ActionTagInput, p: int)
    requires
        0 <= p < 9,
    ensures
        tag_carries(action_tags_spec(i), fixed_action_tags(i)[p].0, fixed_action_tags(i)[p].1),
{
    lemma_action_tags_shape(i);
    lemma_kinds_distinct();
    let t = action_tags_spec(i);
    let f = fixed_action_tags(i);
    let ks = seq!["d"@, "action"@, "governance_tier"@, "governance_layer"@, "repository"@, "governance_config"@,
        "final_signatures"@, "final_review_days"@, "timestamp"@];
    assert forall|k: int| 0 <= k < 9 implies (#[trigger] f[k]).0 == ks[k] by {}
    assert(t[p] == f[p]);
    assert forall|k: int| 0 <= k < t.len() && (#[trigger] t[k]).0 == f[p].0 implies t[k].1 == f[p].1 by {
        if k < 9 {
            assert(t[k] == f[k]);
            if k != p {
                assert(ks[k] != ks[p]);
            }
        } else if k < t.len() - 1 {
            assert(optional_kind(t[k].0));
            assert(!optional_kind(ks[p]));
        } else {
            assert(!ks.contains("t"@));
            assert(ks[p] != "t"@);
        }
    }
}

/// The optional tag of kind `kind` with value `v`, when there is one.
pub open spec fn optional_tag(kind: Seq<char>, v: Option<Seq<char>>) -> Seq<(Seq<char>, Seq<Seq<char>>)> {
    match v {
        Some(x) => seq![tag(kind, x)],
        None => Seq::empty(),
    }
}

proof fn lemma_optional_tags(i: ActionTagInput)
    ensures
        match i.commit_hash {
            Some(h) => tag_carries(action_tags_spec(i), "commit_hash"@, seq![h@]),
            None => tag_absent(action_tags_spec(i), "commit_hash"@),
        },
        match i.pr_number {
            Some(p) => tag_carries(action_tags_spec(i), "pr_number"@, seq![int_decimal(p as int)]),
            None => tag_absent(action_tags_spec(i), "pr_number"@),
        },
        match i.zap_address {
            Some(z) => tag_carries(action_tags_spec(i), "zap"@, seq![z@]),
            None => tag_absent(action_tags_spec(i), "zap"@),
        },
        tag_carries(action_tags_spec(i), "t"@, seq!["btc-commons"@, "governance"@]),
{
    lemma_kinds_distinct();
    let t = action_tags_spec(i);
    let f = fixed_action_tags(i);
    let c = optional_tag("commit_hash"@, match i.commit_hash { Some(h) => Some(h@), None => None });
    let p = optional_tag("pr_number"@, match i.pr_number { Some(x) => Some(int_decimal(x as int)), None => None });
    let z = optional_tag("zap"@, match i.zap_address { Some(x) => Some(x@), None => None });
    let topic = ("t"@, seq!["btc-commons"@, "governance"@]);
    let w1 = match i.commit_hash { Some(h) => f.push(tag("commit_hash"@, h@)), None => f };
    let w2 = match i.pr_number { Some(x) => w1.push(tag("pr_number"@, int_decimal(x as int))), None => w1 };
    let w3 = match i.zap_address { Some(x) => w2.push(tag("zap"@, x@)), None => w2 };
    assert(t == w3.push(topic));
    assert(w1 =~= f + c);
    assert(w2 =~= f + c + p);
    assert(w3 =~= f + c + p + z);
    assert(t =~= f + c + p + z + seq![topic]);
    let ks = seq!["d"@, "action"@, "governance_tier"@, "governance_layer"@, "repository"@, "governance_config"@,
        "final_signatures"@, "final_review_days"@, "timestamp"@];
    assert forall|k: int| 0 <= k < 9 implies (#[trigger] f[k]).0 == ks[k] by {}
    assert forall|k: int| 0 <= k < 9 implies !optional_kind(#[trigger] f[k].0) && f[k].0 != "t"@ by {
        assert(ks.contains(ks[k]));
    }
    let lf = f.len() as int;
    let lc = c.len() as int;
    let lp = p.len() as int;
    let lz = z.len() as int;
    // the kind at each position, by region
    assert forall|k: int| 0 <= k < t.len() implies
        (k < lf ==> (#[trigger] t[k]) == f[k])
        && (lf <= k < lf + lc ==> t[k] == c[k - lf])
        && (lf + lc <= k < lf + lc + lp ==> t[k] == p[k - lf - lc])
        && (lf + lc + lp <= k < lf + lc + lp + lz ==> t[k] == z[k - lf - lc - lp])
        && (k == t.len() - 1 ==> t[k] == topic) by {}
    assert(t.len() == lf + lc + lp + lz + 1);
    match i.commit_hash {
        Some(h) => {
            assert(t[lf] == tag("commit_hash"@, h@));
        },
        None => {},
    }
    match i.pr_number {
        Some(x) => {
            assert(t[lf + lc] == tag("pr_number"@, int_decimal(x as int)));
        },
        None => {},
    }
    match i.zap_address {
        Some(x) => {
            assert(t[lf + lc + lp] == tag("zap"@, x@));
        },
        None => {},
    }
    assert(t[t.len() - 1] == topic);
}

/// Each named tag of a governance action event carries its own field of
/// the action: the tier, the layer, the repository and so on, each as text;
/// the commit, PR and zap tags are there exactly when their fields are set.
pub proof fn lemma_action_tags_fields(i: ActionTagInput)
    ensures
        tag_carries(action_tags_spec(i), "d"@, seq!["btc-commons-governance-action"@]),
        tag_carries(action_tags_spec(i), "action"@, seq![i.action@]),
        tag_carries(action_tags_spec(i), "governance_tier"@, seq![nat_digits(i.governance_tier as nat)]),
        tag_carries(action_tags_spec(i), "governance_layer"@, seq![nat_digits(i.governance_layer as nat)]),
        tag_carries(action_tags_spec(i), "repository"@, seq![i.repository@]),
        tag_carries(action_tags_spec(i), "governance_config"@, seq![i.governance_config@]),
        tag_carries(action_tags_spec(i), "final_signatures"@, seq![i.final_signatures@]),
        tag_carries(action_tags_spec(i), "final_review_days"@, seq![nat_digits(i.final_review_days as nat)]),
        tag_carries(action_tags_spec(i), "timestamp"@, seq![int_decimal(i.timestamp as int)]),
        match i.commit_hash {
            Some(h) => tag_carries(action_tags_spec(i), "commit_hash"@, seq![h@]),
            None => tag_absent(action_tags_spec(i), "commit_hash"@),
        },
        match i.pr_number {
            Some(p) => tag_carries(action_tags_spec(i), "pr_number"@, seq![int_decimal(p as int)]),
            None => tag_absent(action_tags_spec(i), "pr_number"@),
        },
        match i.zap_address {
            Some(z) => tag_carries(action_tags_spec(i), "zap"@, seq![z@]),
            None => tag_absent(action_tags_spec(i), "zap"@),
        },
        tag_carries(action_tags_spec(i), "t"@, seq!["btc-commons"@, "governance"@]),
{
    let f = fixed_action_tags(i);
    lemma_fixed_tag_carried(i, 0);
    lemma_fixed_tag_carried(i, 1);
    lemma_fixed_tag_carried(i, 2);
    lemma_fixed_tag_carried(i, 3);
    lemma_fixed_tag_carried(i, 4);
    lemma_fixed_tag_carried(i, 5);
    lemma_fixed_tag_carried(i, 6);
    lemma_fixed_tag_carried(i, 7);
    lemma_fixed_tag_carried(i, 8);
    lemma_optional_tags(i);
}

} // verus!
