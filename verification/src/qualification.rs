//! How the contribution checks of a commons contributor combine into a
//! qualification.  Each contribution kind (merge mining, fee forwarding,
//! zaps, marketplace sales) is either enabled or not, and its proof either
//! meets the kind's minimum over the measurement period or not; the
//! configured logic "OR" asks for one met kind, "AND" for every enabled
//! kind, and any other logic counts as "OR".
use vstd::prelude::*;
use crate::strings::str_eq;

verus! {

broadcast use vstd::string::group_string_axioms;

/// The number of enabled kinds among the checks.
pub open spec fn enabled_count(checks: Seq<(bool, bool)>) -> nat
    decreases checks.len(),
{
    if checks.len() == 0 {
        0
    } else {
        enabled_count(checks.drop_last()) + if checks.last().0 { 1nat } else { 0nat }
    }
}

/// The number of enabled kinds whose proof meets the minimum.
pub open spec fn met_count(checks: Seq<(bool, bool)>) -> nat
    decreases checks.len(),
{
    if checks.len() == 0 {
        0
    } else {
        met_count(checks.drop_last()) + if checks.last().0 && checks.last().1 { 1nat } else { 0nat }
    }
}

/// Whether the checks qualify under the logic.
pub open spec fn qualified_spec(logic: Seq<char>, checks: Seq<(bool, bool)>) -> bool {
    if logic == "AND"@ {
        met_count(checks) == enabled_count(checks)
    } else {
        met_count(checks) > 0
    }
}

/// Whether some enabled kind is met.
pub open spec fn some_met(checks: Seq<(bool, bool)>) -> bool {
    exists|i: int| 0 <= i < checks.len() && #[trigger] checks[i].0 && checks[i].1
}

/// Some kind is met exactly when the count of met kinds is positive.
pub proof fn lemma_met_count_positive(checks: Seq<(bool, bool)>)
    ensures
        met_count(checks) > 0 <==> some_met(checks),
    decreases checks.len(),
{
    if checks.len() > 0 {
        let init = checks.drop_last();
        lemma_met_count_positive(init);
        if some_met(init) {
            let i = choose|i: int| 0 <= i < init.len() && #[trigger] init[i].0 && init[i].1;
            assert(checks[i] == init[i]);
        }
        if some_met(checks) {
            let i = choose|i: int| 0 <= i < checks.len() && #[trigger] checks[i].0 && checks[i].1;
            if i < init.len() {
                assert(init[i] == checks[i]);
            }
        }
        if checks.last().0 && checks.last().1 {
            assert(checks[checks.len() - 1].0 && checks[checks.len() - 1].1);
        }
    }
}

/// Whether a commons contributor qualifies: `checks` holds, per
/// contribution kind, whether the kind is enabled and whether its proof
/// meets the minimum; `qualification_logic` is "OR", "AND" or anything else
/// (read as "OR").
pub fn contributor_qualified(qualification_logic: &str, checks: &Vec<(bool, bool)>) -> (res: bool)
    ensures
        res == qualified_spec(qualification_logic@, checks@),
{
    let mut enabled: usize = 0;
    let mut met: usize = 0;
    let mut i: usize = 0;
    while i < checks.len()
        invariant
            i <= checks@.len(),
            enabled == enabled_count(checks@.take(i as int)),
            met == met_count(checks@.take(i as int)),
            met <= enabled <= i,
        decreases checks@.len() - i,
    {
        let (on, ok) = checks[i];
        proof {
            assert(checks@.take(i as int + 1).drop_last() =~= checks@.take(i as int));
        }
        if on {
            enabled = enabled + 1;
            if ok {
                met = met + 1;
            }
        }
        i = i + 1;
    }
    proof {
        assert(checks@.take(i as int) =~= checks@);
    }
    if str_eq(qualification_logic, "AND") {
        met == enabled
    } else {
        met > 0
    }
}

/// Whether a commons contributor qualifies.  `checks` is `None` when the
/// contributor brought no contribution proof, which never qualifies.
/// `qualification_logic` is the configured logic, or `None` when no
/// thresholds are configured: the checks are then those of the built-in
/// default minimums, combined by "OR".
pub fn verify_commons_contributor_qualification(
    qualification_logic: Option<&str>,
    checks: Option<&Vec<(bool, bool)>>,
) -> (res: bool)
    ensures
        checks is None ==> !res,
        checks matches Some(c) ==> res == match qualification_logic {
            Some(l) => qualified_spec(l@, c@),
            None => qualified_spec("OR"@, c@),
        },
{
    match checks {
        None => false,
        Some(c) => match qualification_logic {
            Some(l) => contributor_qualified(l, c),
            None => contributor_qualified("OR", c),
        },
    }
}

/// Under "AND", a contributor with at least one enabled kind that
/// qualifies also qualifies under "OR".
pub proof fn lemma_and_implies_or(checks: Seq<(bool, bool)>)
    requires
        enabled_count(checks) > 0,
        qualified_spec("AND"@, checks),
    ensures
        qualified_spec("OR"@, checks),
{
    reveal_strlit("AND");
    reveal_strlit("OR");
    assert("OR"@.len() != "AND"@.len());
}

/// Under "OR", qualifying means some enabled kind is met.
pub proof fn lemma_or_means_some_met(checks: Seq<(bool, bool)>)
    ensures
        qualified_spec("OR"@, checks) <==> some_met(checks),
{
    reveal_strlit("AND");
    reveal_strlit("OR");
    assert("OR"@.len() != "AND"@.len());
    lemma_met_count_positive(checks);
}

} // verus!
