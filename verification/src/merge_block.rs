//! Merge blocking: whether governance requirements allow a PR to be merged,
//! why not, and the status posted for it.
use vstd::prelude::*;
use crate::error::GovernanceError;
use crate::strings::{contains_text, occurs_at, str_eq};
use crate::veto::VetoDecision;

verus! {

broadcast use vstd::string::group_string_axioms;

/// Decides merge blocking; posts statuses in dry-run form when asked to.
#[derive(Debug, Clone, Copy)]
pub struct MergeBlocker {
    pub dry_run_mode: bool,
}

/// Whether a merge is blocked: in emergency mode only the signature
/// threshold counts; otherwise an active economic veto blocks tier 3 and
/// above, and a missing review period or signature threshold blocks.
pub open spec fn block_spec(review_period_met: bool, signatures_met: bool, economic_veto_active: bool, tier: u32, emergency_mode: bool) -> bool {
    if emergency_mode {
        !signatures_met
    } else if tier >= 3 && economic_veto_active {
        true
    } else {
        !(review_period_met && signatures_met)
    }
}

/// Whether a merge is blocked, given the full veto state: in emergency mode
/// only signatures count; for tier 3 and above an active veto blocks, an
/// overridden veto or a "consensus"/"override" resolution falls back to the
/// basic requirements, any other resolution also blocks while the veto
/// threshold is met, and no resolution falls back to the basic
/// requirements; tiers 1-2 only have the basic requirements.
pub open spec fn block_with_veto_spec(review_period_met: bool, signatures_met: bool, veto_active: bool, maintainer_override: bool, resolution_path: Option<Seq<char>>, threshold_met: bool, tier: u32, emergency_mode: bool) -> bool {
    let basic = review_period_met && signatures_met;
    if emergency_mode {
        !signatures_met
    } else if tier >= 3 {
        if veto_active {
            true
        } else if maintainer_override {
            !basic
        } else {
            match resolution_path {
                Some(p) => if p == "consensus"@ || p == "override"@ { !basic } else { !basic || threshold_met },
                None => !basic,
            }
        }
    } else {
        !basic
    }
}

/// The reasons a merge is blocked outside emergency mode, in order.
pub open spec fn block_reasons(review_period_met: bool, signatures_met: bool, economic_veto_active: bool, tier: u32) -> Seq<Seq<char>> {
    let r1: Seq<Seq<char>> = if !review_period_met { seq!["Review period requirement not met"@] } else { Seq::empty() };
    let r2: Seq<Seq<char>> = if !signatures_met { seq!["Signature threshold requirement not met"@] } else { Seq::empty() };
    let r3: Seq<Seq<char>> = if tier >= 3 && economic_veto_active {
        seq!["Economic node veto active (30%+ hashpower AND 40%+ economic activity)"@]
    } else {
        Seq::empty()
    };
    r1 + r2 + r3
}

/// The texts of `parts` joined with `sep`.
pub open spec fn join_spec(parts: Seq<Seq<char>>, sep: Seq<char>) -> Seq<char>
    decreases parts.len(),
{
    if parts.len() == 0 {
        Seq::empty()
    } else if parts.len() == 1 {
        parts[0]
    } else {
        join_spec(parts.drop_last(), sep) + sep + parts.last()
    }
}

/// The block reason text.
pub open spec fn block_reason_spec(review_period_met: bool, signatures_met: bool, economic_veto_active: bool, tier: u32, emergency_mode: bool) -> Seq<char> {
    if emergency_mode {
        if !signatures_met {
            "Emergency mode: Signature threshold not met"@
        } else {
            "Emergency mode: All requirements met"@
        }
    } else {
        let reasons = block_reasons(review_period_met, signatures_met, economic_veto_active, tier);
        if reasons.len() == 0 {
            "All governance requirements met"@
        } else {
            "Governance requirements not met: "@ + join_spec(reasons, ", "@)
        }
    }
}

impl MergeBlocker {
    /// A merge blocker; in dry-run mode its statuses are marked as such.
    pub fn new(dry_run_mode: bool) -> (res: Self)
        ensures
            res.dry_run_mode == dry_run_mode,
    {
        MergeBlocker { dry_run_mode }
    }

    /// Whether the merge must be blocked.
    pub fn should_block_merge(review_period_met: bool, signatures_met: bool, economic_veto_active: bool, tier: u32, emergency_mode: bool) -> (res: Result<bool, GovernanceError>)
        ensures
            res == Ok::<bool, GovernanceError>(block_spec(review_period_met, signatures_met, economic_veto_active, tier, emergency_mode)),
    {
        if emergency_mode {
            Ok(!signatures_met)
        } else {
            let basic_requirements_met = review_period_met && signatures_met;
            if tier >= 3 && economic_veto_active {
                Ok(true)
            } else {
                Ok(!basic_requirements_met)
            }
        }
    }

    /// Whether the merge must be blocked, given the full veto state.
    pub fn should_block_merge_with_veto(review_period_met: bool, signatures_met: bool, veto_threshold: &VetoDecision, tier: u32, emergency_mode: bool) -> (res: Result<bool, GovernanceError>)
        ensures
            res == Ok::<bool, GovernanceError>(block_with_veto_spec(
                review_period_met,
                signatures_met,
                veto_threshold.veto_active,
                veto_threshold.maintainer_override,
                match veto_threshold.resolution_path { Some(p) => Some(p@), None => None },
                veto_threshold.threshold_met,
                tier,
                emergency_mode,
            )),
    {
        if emergency_mode {
            Ok(!signatures_met)
        } else {
            let basic_requirements_met = review_period_met && signatures_met;
            if tier >= 3 {
                if veto_threshold.veto_active {
                    Ok(true)
                } else if veto_threshold.maintainer_override {
                    Ok(!basic_requirements_met)
                } else {
                    match &veto_threshold.resolution_path {
                        Some(path) => {
                            if str_eq(path.as_str(), "consensus") || str_eq(path.as_str(), "override") {
                                Ok(!basic_requirements_met)
                            } else {
                                Ok(!basic_requirements_met || veto_threshold.threshold_met)
                            }
                        },
                        None => Ok(!basic_requirements_met),
                    }
                }
            } else {
                Ok(!basic_requirements_met)
            }
        }
    }

    /// The reason text for the merge decision.
    pub fn get_block_reason(review_period_met: bool, signatures_met: bool, economic_veto_active: bool, tier: u32, emergency_mode: bool) -> (res: String)
        ensures
            res@ == block_reason_spec(review_period_met, signatures_met, economic_veto_active, tier, emergency_mode),
            !emergency_mode ==> (contains_text(res@, "Review period requirement not met"@) <==> !review_period_met),
            !emergency_mode ==> (contains_text(res@, "Signature threshold requirement not met"@) <==> !signatures_met),
            !emergency_mode ==> (contains_text(res@, "Economic node veto active"@)
                <==> (tier >= 3 && economic_veto_active)),
            !emergency_mode ==> ((res@ == "All governance requirements met"@)
                <==> (review_period_met && signatures_met && !(tier >= 3 && economic_veto_active))),
    {
        proof {
            lemma_block_reason_text(review_period_met, signatures_met, economic_veto_active, tier);
        }
        if emergency_mode {
            if !signatures_met {
                String::from_str("Emergency mode: Signature threshold not met")
            } else {
                String::from_str("Emergency mode: All requirements met")
            }
        } else {
            let mut reasons: Vec<&str> = Vec::new();
            if !review_period_met {
                reasons.push("Review period requirement not met");
            }
            if !signatures_met {
                reasons.push("Signature threshold requirement not met");
            }
            if tier >= 3 && economic_veto_active {
                reasons.push("Economic node veto active (30%+ hashpower AND 40%+ economic activity)");
            }
            let ghost rv = Seq::new(reasons@.len(), |i: int| reasons@[i]@);
            assert(rv =~= block_reasons(review_period_met, signatures_met, economic_veto_active, tier));
            if reasons.len() == 0 {
                String::from_str("All governance requirements met")
            } else {
                let mut text = String::from_str("Governance requirements not met: ");
                let joined = join_strs(&reasons, ", ");
                text.append(joined.as_str());
                text
            }
        }
    }

    /// The state and description of the merge status check.
    pub fn merge_status(&self, should_block: bool, reason: &str) -> (res: (&'static str, String))
        ensures
            res.0@ == if should_block { "failure"@ } else { "success"@ },
            res.1@ == (if self.dry_run_mode { "[DRY-RUN] "@ } else { Seq::empty() }) + if should_block {
                "❌ Merge blocked: "@ + reason@
            } else {
                "✅ Governance requirements met - merge allowed"@
            },
    {
        let state = if should_block { "failure" } else { "success" };
        let mut description = if self.dry_run_mode { String::from_str("[DRY-RUN] ") } else { String::new() };
        if should_block {
            description.append("❌ Merge blocked: ");
            description.append(reason);
        } else {
            description.append("✅ Governance requirements met - merge allowed");
        }
        proof {
            if !self.dry_run_mode {
                assert(Seq::<char>::empty() + (if should_block { "❌ Merge blocked: "@ + reason@ } else {
                    "✅ Governance requirements met - merge allowed"@ }) =~= (if should_block {
                    "❌ Merge blocked: "@ + reason@ } else { "✅ Governance requirements met - merge allowed"@ }));
            }
        }
        (state, description)
    }
}

/// The texts joined with a separator.
fn join_strs(parts: &Vec<&str>, sep: &str) -> (res: String)
    ensures
        res@ == join_spec(Seq::new(parts@.len(), |i: int| parts@[i]@), sep@),
{
    let ghost pv = Seq::new(parts@.len(), |i: int| parts@[i]@);
    let mut out = String::new();
    let mut i: usize = 0;
    while i < parts.len()
        invariant
            i <= parts@.len(),
            pv == Seq::new(parts@.len(), |i: int| parts@[i]@),
            out@ == join_spec(pv.take(i as int), sep@),
        decreases parts@.len() - i,
    {
        let ghost prev = pv.take(i as int);
        assert(pv.take(i + 1).drop_last() =~= prev);
        if i > 0 {
            out.append(sep);
        }
        out.append(parts[i]);
        proof {
            if i == 0 {
                assert(out@ =~= pv.take(1)[0]);
            }
        }
        i = i + 1;
    }
    assert(pv.take(parts@.len() as int) =~= pv);
    out
}

/// The reason text says all requirements are met exactly when the merge is
/// not blocked.
pub proof fn lemma_reason_matches_decision(review_period_met: bool, signatures_met: bool, economic_veto_active: bool, tier: u32, emergency_mode: bool)
    ensures
        !block_spec(review_period_met, signatures_met, economic_veto_active, tier, emergency_mode) <==> (
            block_reason_spec(review_period_met, signatures_met, economic_veto_active, tier, emergency_mode) == "All governance requirements met"@
            || block_reason_spec(review_period_met, signatures_met, economic_veto_active, tier, emergency_mode) == "Emergency mode: All requirements met"@),
{
    reveal_strlit("All governance requirements met");
    reveal_strlit("Emergency mode: All requirements met");
    reveal_strlit("Emergency mode: Signature threshold not met");
    reveal_strlit("Governance requirements not met: ");
    let reasons = block_reasons(review_period_met, signatures_met, economic_veto_active, tier);
    let r = block_reason_spec(review_period_met, signatures_met, economic_veto_active, tier, emergency_mode);
    if emergency_mode {
        assert("Emergency mode: Signature threshold not met"@.len() != "All governance requirements met"@.len());
        assert("Emergency mode: Signature threshold not met"@[16] != "Emergency mode: All requirements met"@[16]);
        assert("Emergency mode: All requirements met"@[0] != "All governance requirements met"@[0]);
    } else if reasons.len() > 0 {
        assert(r.take(6) =~= "Govern"@.take(6)) by {
            reveal_strlit("Govern");
            assert(r.take(6) =~= "Governance requirements not met: "@.take(6));
        }
        reveal_strlit("Govern");
        assert(r[0] != "All governance requirements met"@[0]) by {
            assert(r[0] == r.take(6)[0]);
        }
        assert(r[0] != "Emergency mode: All requirements met"@[0]) by {
            assert(r[0] == r.take(6)[0]);
        }
    }
}

/// Outside emergency mode, an active veto blocks a tier 3+ merge whatever
/// else holds, under both decision rules.
pub proof fn lemma_active_veto_blocks(review_period_met: bool, signatures_met: bool, maintainer_override: bool, resolution_path: Option<Seq<char>>, threshold_met: bool, tier: u32)
    requires
        tier >= 3,
    ensures
        block_spec(review_period_met, signatures_met, true, tier, false),
        block_with_veto_spec(review_period_met, signatures_met, true, maintainer_override, resolution_path, threshold_met, tier, false),
{
}

/// Both decision rules agree with each other whenever no veto is active and
/// no unresolved veto threshold is met.
pub proof fn lemma_rules_agree_without_veto(review_period_met: bool, signatures_met: bool, maintainer_override: bool, resolution_path: Option<Seq<char>>, tier: u32, emergency_mode: bool)
    ensures
        block_with_veto_spec(review_period_met, signatures_met, false, maintainer_override, resolution_path, false, tier, emergency_mode)
            == block_spec(review_period_met, signatures_met, false, tier, emergency_mode),
{
}

/// Outside emergency mode, the block reason names each unmet requirement
/// exactly when it is unmet: the review period, the signature threshold,
/// and the economic veto (tier 3 and above); and it reads "All governance
/// requirements met" exactly when nothing blocks.
pub proof fn lemma_block_reason_names_unmet(review_period_met: bool, signatures_met: bool, economic_veto_active: bool, tier: u32)
    ensures
        block_reasons(review_period_met, signatures_met, economic_veto_active, tier).contains(
            "Review period requirement not met"@) <==> !review_period_met,
        block_reasons(review_period_met, signatures_met, economic_veto_active, tier).contains(
            "Signature threshold requirement not met"@) <==> !signatures_met,
        block_reasons(review_period_met, signatures_met, economic_veto_active, tier).contains(
            "Economic node veto active (30%+ hashpower AND 40%+ economic activity)"@) <==> (tier >= 3 && economic_veto_active),
        (block_reason_spec(review_period_met, signatures_met, economic_veto_active, tier, false)
            == "All governance requirements met"@) <==> !block_spec(review_period_met, signatures_met, economic_veto_active, tier, false),
{
    let p1 = "Review period requirement not met"@;
    let p2 = "Signature threshold requirement not met"@;
    let p3 = "Economic node veto active (30%+ hashpower AND 40%+ economic activity)"@;
    let all = "All governance requirements met"@;
    let head = "Governance requirements not met: "@;
    reveal_strlit("Review period requirement not met");
    reveal_strlit("Signature threshold requirement not met");
    reveal_strlit("Economic node veto active (30%+ hashpower AND 40%+ economic activity)");
    reveal_strlit("All governance requirements met");
    reveal_strlit("Governance requirements not met: ");
    assert(p1.len() != p2.len() && p1.len() != p3.len() && p2.len() != p3.len());
    let rs = block_reasons(review_period_met, signatures_met, economic_veto_active, tier);
    let r1: Seq<Seq<char>> = if !review_period_met { seq![p1] } else { Seq::empty() };
    let r2: Seq<Seq<char>> = if !signatures_met { seq![p2] } else { Seq::empty() };
    let r3: Seq<Seq<char>> = if tier >= 3 && economic_veto_active { seq![p3] } else { Seq::empty() };
    assert(rs == r1 + r2 + r3);
    assert forall|x: Seq<char>| #[trigger] rs.contains(x) <==> (r1.contains(x) || r2.contains(x) || r3.contains(x)) by {
        if rs.contains(x) {
            let t = choose|t: int| 0 <= t < rs.len() && rs[t] == x;
            if t < r1.len() {
                assert(r1[t] == x);
            } else if t < r1.len() + r2.len() {
                assert(r2[t - r1.len()] == x);
            } else {
                assert(r3[t - r1.len() - r2.len()] == x);
            }
        }
        if r1.contains(x) {
            let t = choose|t: int| 0 <= t < r1.len() && r1[t] == x;
            assert(rs[t] == x);
        }
        if r2.contains(x) {
            let t = choose|t: int| 0 <= t < r2.len() && r2[t] == x;
            assert(rs[r1.len() + t] == x);
        }
        if r3.contains(x) {
            let t = choose|t: int| 0 <= t < r3.len() && r3[t] == x;
            assert(rs[r1.len() + r2.len() + t] == x);
        }
    }
    if !review_period_met {
        assert(r1[0] == p1);
    }
    if !signatures_met {
        assert(r2[0] == p2);
    }
    if tier >= 3 && economic_veto_active {
        assert(r3[0] == p3);
    }
    if rs.len() > 0 {
        let text = head + join_spec(rs, ", "@);
        assert(text[0] == head[0]);
        assert(text[0] != all[0]);
    }
}

/// `c` does not occur in `s` from position `i` on, checked char by char.
spec fn lacks_char_from(s: Seq<char>, c: char, i: int) -> bool
    decreases s.len() - i,
{
    i < 0 || i >= s.len() || (s[i] != c && lacks_char_from(s, c, i + 1))
}

/// `c` does not occur in `s`, checked char by char.
spec fn lacks_char(s: Seq<char>, c: char) -> bool {
    lacks_char_from(s, c, 0)
}

/// `c` occurs nowhere in `s`.
spec fn no_char(s: Seq<char>, c: char) -> bool {
    forall|i: int| 0 <= i < s.len() ==> #[trigger] s[i] != c
}

/// `s` starts with `p`, checked char by char.
spec fn starts_with_chars(s: Seq<char>, p: Seq<char>) -> bool
    decreases p.len(),
{
    p.len() == 0 || (s.len() > 0 && s[0] == p[0] && starts_with_chars(s.drop_first(), p.drop_first()))
}

proof fn lemma_lacks_char_from(s: Seq<char>, c: char, i: int)
    requires
        0 <= i,
        lacks_char_from(s, c, i),
    ensures
        forall|k: int| i <= k < s.len() ==> #[trigger] s[k] != c,
    decreases s.len() - i,
{
    if i < s.len() {
        lemma_lacks_char_from(s, c, i + 1);
    }
}

proof fn lemma_lacks_char(s: Seq<char>, c: char)
    requires
        lacks_char(s, c),
    ensures
        no_char(s, c),
{
    lemma_lacks_char_from(s, c, 0);
}

proof fn lemma_starts_with(s: Seq<char>, p: Seq<char>)
    requires
        starts_with_chars(s, p),
    ensures
        p.len() <= s.len(),
        s.subrange(0, p.len() as int) == p,
    decreases p.len(),
{
    if p.len() > 0 {
        lemma_starts_with(s.drop_first(), p.drop_first());
        assert forall|i: int| 0 <= i < p.len() implies #[trigger] s.subrange(0, p.len() as int)[i] == p[i] by {
            if i > 0 {
                assert(s.drop_first().subrange(0, p.drop_first().len() as int)[i - 1] == p.drop_first()[i - 1]);
            }
        }
        assert(s.subrange(0, p.len() as int) =~= p);
    }
}

/// A text without `c` holds no text that starts with `c`.
proof fn lemma_absent(hay: Seq<char>, needle: Seq<char>, c: char)
    requires
        no_char(hay, c),
        needle.len() > 0,
        needle[0] == c,
    ensures
        !contains_text(hay, needle),
{
    if contains_text(hay, needle) {
        let j = choose|j: int| #[trigger] occurs_at(hay, needle, j);
        assert(hay.subrange(j, j + needle.len())[0] == hay[j]);
    }
}

proof fn lemma_concat_no_char(a: Seq<char>, b: Seq<char>, c: char)
    requires
        no_char(a, c),
        no_char(b, c),
    ensures
        no_char(a + b, c),
{
    assert forall|i: int| 0 <= i < (a + b).len() implies #[trigger] (a + b)[i] != c by {
        if i >= a.len() {
            assert((a + b)[i] == b[i - a.len()]);
        }
    }
}

proof fn lemma_join_no_char(rs: Seq<Seq<char>>, sep: Seq<char>, c: char)
    requires
        forall|t: int| 0 <= t < rs.len() ==> no_char(#[trigger] rs[t], c),
        no_char(sep, c),
    ensures
        no_char(join_spec(rs, sep), c),
    decreases rs.len(),
{
    if rs.len() == 1 {
        assert(no_char(rs[0], c));
    } else if rs.len() > 1 {
        let init = rs.drop_last();
        assert forall|t: int| 0 <= t < init.len() implies no_char(#[trigger] init[t], c) by {
            assert(init[t] == rs[t]);
        }
        lemma_join_no_char(init, sep, c);
        lemma_concat_no_char(join_spec(init, sep), sep, c);
        assert(no_char(rs[rs.len() - 1], c));
        lemma_concat_no_char(join_spec(init, sep) + sep, rs.last(), c);
    }
}

proof fn lemma_occurs_left(a: Seq<char>, b: Seq<char>, n: Seq<char>, j: int)
    requires
        occurs_at(a, n, j),
    ensures
        occurs_at(a + b, n, j),
{
    assert((a + b).subrange(j, j + n.len()) =~= a.subrange(j, j + n.len()));
}

proof fn lemma_occurs_right(a: Seq<char>, b: Seq<char>, n: Seq<char>, j: int)
    requires
        occurs_at(b, n, j),
    ensures
        occurs_at(a + b, n, a.len() + j),
{
    assert((a + b).subrange(a.len() + j, a.len() + j + n.len()) =~= b.subrange(j, j + n.len()));
}

proof fn lemma_join_contains(rs: Seq<Seq<char>>, sep: Seq<char>, t: int)
    requires
        0 <= t < rs.len(),
    ensures
        contains_text(join_spec(rs, sep), rs[t]),
    decreases rs.len(),
{
    if rs.len() == 1 {
        assert(rs[0].subrange(0, rs[0].len() as int) =~= rs[0]);
        assert(occurs_at(join_spec(rs, sep), rs[t], 0));
    } else {
        let init = rs.drop_last();
        let front = join_spec(init, sep) + sep;
        if t == rs.len() - 1 {
            assert(rs.last().subrange(0, rs.last().len() as int) =~= rs.last());
            assert(occurs_at(rs.last(), rs.last(), 0));
            lemma_occurs_right(front, rs.last(), rs.last(), 0);
            assert(occurs_at(join_spec(rs, sep), rs[t], front.len() as int));
        } else {
            lemma_join_contains(init, sep, t);
            assert(init[t] == rs[t]);
            let j = choose|j: int| #[trigger] occurs_at(join_spec(init, sep), rs[t], j);
            lemma_occurs_left(join_spec(init, sep), sep, rs[t], j);
            lemma_occurs_left(front, rs.last(), rs[t], j);
            assert(occurs_at(join_spec(rs, sep), rs[t], j));
        }
    }
}

proof fn lemma_phrase_chars_review()
    ensures
        "Review period requirement not met"@.len() > 0,
        "Review period requirement not met"@[0] == 'R',
        no_char("Review period requirement not met"@, 'S'),
        no_char("Review period requirement not met"@, 'E'),
{
    reveal_strlit("Review period requirement not met");
    reveal_with_fuel(lacks_char_from, 35);
    assert(lacks_char("Review period requirement not met"@, 'S'));
    assert(lacks_char("Review period requirement not met"@, 'E'));
    lemma_lacks_char("Review period requirement not met"@, 'S');
    lemma_lacks_char("Review period requirement not met"@, 'E');
}

proof fn lemma_phrase_chars_signature()
    ensures
        "Signature threshold requirement not met"@.len() > 0,
        "Signature threshold requirement not met"@[0] == 'S',
        no_char("Signature threshold requirement not met"@, 'R'),
        no_char("Signature threshold requirement not met"@, 'E'),
{
    reveal_strlit("Signature threshold requirement not met");
    reveal_with_fuel(lacks_char_from, 41);
    assert(lacks_char("Signature threshold requirement not met"@, 'R'));
    assert(lacks_char("Signature threshold requirement not met"@, 'E'));
    lemma_lacks_char("Signature threshold requirement not met"@, 'R');
    lemma_lacks_char("Signature threshold requirement not met"@, 'E');
}

proof fn lemma_veto_phrase_lacks(c: char)
    requires
        c == 'R' || c == 'S',
    ensures
        no_char("Economic node veto active (30%+ hashpower AND 40%+ economic activity)"@, c),
{
    reveal_strlit("Economic node veto active (30%+ hashpower AND 40%+ economic activity)");
    reveal_with_fuel(lacks_char_from, 72);
    assert(lacks_char("Economic node veto active (30%+ hashpower AND 40%+ economic activity)"@, c));
    lemma_lacks_char("Economic node veto active (30%+ hashpower AND 40%+ economic activity)"@, c);
}

proof fn lemma_phrase_chars_veto()
    ensures
        "Economic node veto active"@.len() > 0,
        "Economic node veto active"@[0] == 'E',
        "Economic node veto active"@.len()
            <= "Economic node veto active (30%+ hashpower AND 40%+ economic activity)"@.len(),
        "Economic node veto active (30%+ hashpower AND 40%+ economic activity)"@.subrange(
            0, "Economic node veto active"@.len() as int) == "Economic node veto active"@,
        no_char("Economic node veto active (30%+ hashpower AND 40%+ economic activity)"@, 'R'),
        no_char("Economic node veto active (30%+ hashpower AND 40%+ economic activity)"@, 'S'),
{
    reveal_strlit("Economic node veto active (30%+ hashpower AND 40%+ economic activity)");
    reveal_strlit("Economic node veto active");
    reveal_with_fuel(starts_with_chars, 27);
    let p3 = "Economic node veto active (30%+ hashpower AND 40%+ economic activity)"@;
    lemma_veto_phrase_lacks('R');
    lemma_veto_phrase_lacks('S');
    assert(starts_with_chars(p3, "Economic node veto active"@));
    lemma_starts_with(p3, "Economic node veto active"@);
}

proof fn lemma_phrase_chars_other()
    ensures
        "All governance requirements met"@.len() > 0,
        "All governance requirements met"@[0] == 'A',
        "Governance requirements not met: "@.len() > 0,
        "Governance requirements not met: "@[0] == 'G',
        no_char("All governance requirements met"@, 'R'),
        no_char("All governance requirements met"@, 'S'),
        no_char("All governance requirements met"@, 'E'),
        no_char("Governance requirements not met: "@, 'R'),
        no_char("Governance requirements not met: "@, 'S'),
        no_char("Governance requirements not met: "@, 'E'),
        no_char(", "@, 'R'),
        no_char(", "@, 'S'),
        no_char(", "@, 'E'),
{
    reveal_strlit("All governance requirements met");
    reveal_strlit("Governance requirements not met: ");
    reveal_strlit(", ");
    reveal_with_fuel(lacks_char_from, 35);
    let all = "All governance requirements met"@;
    let head = "Governance requirements not met: "@;
    let sep = ", "@;
    assert(lacks_char(all, 'R'));
    assert(lacks_char(all, 'S'));
    assert(lacks_char(all, 'E'));
    assert(lacks_char(head, 'R'));
    assert(lacks_char(head, 'S'));
    assert(lacks_char(head, 'E'));
    assert(lacks_char(sep, 'R'));
    assert(lacks_char(sep, 'S'));
    assert(lacks_char(sep, 'E'));
    lemma_lacks_char(all, 'R');
    lemma_lacks_char(all, 'S');
    lemma_lacks_char(all, 'E');
    lemma_lacks_char(head, 'R');
    lemma_lacks_char(head, 'S');
    lemma_lacks_char(head, 'E');
    lemma_lacks_char(sep, 'R');
    lemma_lacks_char(sep, 'S');
    lemma_lacks_char(sep, 'E');
}

/// Outside emergency mode, the block reason text names each unmet
/// requirement exactly when it is unmet: it contains "Review period
/// requirement not met", "Signature threshold requirement not met" and
/// "Economic node veto active" (tier 3 and above) exactly when the review
/// period, the signature threshold or the veto blocks, and it is "All
/// governance requirements met" exactly when none of them does.
pub proof fn lemma_block_reason_text(review_period_met: bool, signatures_met: bool, economic_veto_active: bool, tier: u32)
    ensures
        contains_text(block_reason_spec(review_period_met, signatures_met, economic_veto_active, tier, false),
            "Review period requirement not met"@) <==> !review_period_met,
        contains_text(block_reason_spec(review_period_met, signatures_met, economic_veto_active, tier, false),
            "Signature threshold requirement not met"@) <==> !signatures_met,
        contains_text(block_reason_spec(review_period_met, signatures_met, economic_veto_active, tier, false),
            "Economic node veto active"@) <==> (tier >= 3 && economic_veto_active),
        (block_reason_spec(review_period_met, signatures_met, economic_veto_active, tier, false)
            == "All governance requirements met"@)
            <==> (review_period_met && signatures_met && !(tier >= 3 && economic_veto_active)),
{
    let p1 = "Review period requirement not met"@;
    let p2 = "Signature threshold requirement not met"@;
    let p3 = "Economic node veto active (30%+ hashpower AND 40%+ economic activity)"@;
    let q3 = "Economic node veto active"@;
    let all = "All governance requirements met"@;
    let head = "Governance requirements not met: "@;
    let sep = ", "@;
    lemma_phrase_chars_review();
    lemma_phrase_chars_signature();
    lemma_phrase_chars_veto();
    lemma_phrase_chars_other();
    lemma_block_reason_names_unmet(review_period_met, signatures_met, economic_veto_active, tier);
    let rs = block_reasons(review_period_met, signatures_met, economic_veto_active, tier);
    let text = block_reason_spec(review_period_met, signatures_met, economic_veto_active, tier, false);
    let r1: Seq<Seq<char>> = if !review_period_met { seq![p1] } else { Seq::empty() };
    let r2: Seq<Seq<char>> = if !signatures_met { seq![p2] } else { Seq::empty() };
    let r3: Seq<Seq<char>> = if tier >= 3 && economic_veto_active { seq![p3] } else { Seq::empty() };
    assert(rs == r1 + r2 + r3);
    // each reason is one of the three phrases, present only when it blocks
    assert forall|t: int| 0 <= t < rs.len() implies
        (#[trigger] rs[t] == p1 && !review_period_met) || (rs[t] == p2 && !signatures_met)
            || (rs[t] == p3 && tier >= 3 && economic_veto_active) by {
        if t < r1.len() {
            assert(rs[t] == r1[t]);
        } else if t < r1.len() + r2.len() {
            assert(rs[t] == r2[t - r1.len()]);
        } else {
            assert(rs[t] == r3[t - r1.len() - r2.len()]);
        }
    }
    if rs.len() == 0 {
        assert(text == all);
    } else {
        assert(text == head + join_spec(rs, sep));
    }
    // a phrase that blocks occurs in the text
    assert forall|x: Seq<char>| #[trigger] rs.contains(x) implies contains_text(text, x) by {
        let t = choose|t: int| 0 <= t < rs.len() && rs[t] == x;
        lemma_join_contains(rs, sep, t);
        let j = choose|j: int| #[trigger] occurs_at(join_spec(rs, sep), x, j);
        lemma_occurs_right(head, join_spec(rs, sep), x, j);
    }
    // a phrase that does not block: its first char occurs nowhere in the text
    if review_period_met {
        if rs.len() > 0 {
            assert forall|t: int| 0 <= t < rs.len() implies no_char(#[trigger] rs[t], 'R') by {}
            lemma_join_no_char(rs, sep, 'R');
            lemma_concat_no_char(head, join_spec(rs, sep), 'R');
        }
        lemma_absent(text, p1, 'R');
    }
    if signatures_met {
        if rs.len() > 0 {
            assert forall|t: int| 0 <= t < rs.len() implies no_char(#[trigger] rs[t], 'S') by {}
            lemma_join_no_char(rs, sep, 'S');
            lemma_concat_no_char(head, join_spec(rs, sep), 'S');
        }
        lemma_absent(text, p2, 'S');
    }
    if !(tier >= 3 && economic_veto_active) {
        if rs.len() > 0 {
            assert forall|t: int| 0 <= t < rs.len() implies no_char(#[trigger] rs[t], 'E') by {}
            lemma_join_no_char(rs, sep, 'E');
            lemma_concat_no_char(head, join_spec(rs, sep), 'E');
        }
        lemma_absent(text, q3, 'E');
    } else {
        assert(contains_text(text, p3));
        let j = choose|j: int| #[trigger] occurs_at(text, p3, j);
        assert(text.subrange(j, j + q3.len()) =~= p3.subrange(0, q3.len() as int)) by {
            assert(p3.subrange(0, q3.len() as int) == q3);
            assert forall|i: int| 0 <= i < q3.len() implies
                #[trigger] text.subrange(j, j + q3.len())[i] == p3.subrange(0, q3.len() as int)[i] by {
                assert(text.subrange(j, j + p3.len())[i] == p3[i]);
            }
        }
        assert(occurs_at(text, q3, j));
    }
}

} // verus!
