//! Governance maturity phase, decided from measurable metrics (block
//! height, active economic nodes, commons contributors), taking the most
//! conservative (earliest) phase that any metric gives.
use vstd::prelude::*;

verus! {

/// Governance maturity phases, earliest first.
#[derive(Debug, Clone, Copy, PartialEq, Eq, Structural)]
pub enum GovernancePhase {
    /// Early phase: < 50K blocks, < 10 nodes, < 10 contributors.
    Early,
    /// Growth phase: 50K-200K blocks, 10-30 nodes, 10-100 contributors.
    Growth,
    /// Mature phase: 200K+ blocks, 30+ nodes, 100+ contributors.
    Mature,
}

/// The position of a phase in maturity order.
pub open spec fn phase_rank(p: GovernancePhase) -> int {
    match p {
        GovernancePhase::Early => 0,
        GovernancePhase::Growth => 1,
        GovernancePhase::Mature => 2,
    }
}

/// The phase of a given rank (0, 1, anything higher).
pub open spec fn phase_of_rank(r: int) -> GovernancePhase {
    if r <= 0 {
        GovernancePhase::Early
    } else if r == 1 {
        GovernancePhase::Growth
    } else {
        GovernancePhase::Mature
    }
}

/// The stored name of each phase.
pub open spec fn phase_name(p: GovernancePhase) -> Seq<char> {
    match p {
        GovernancePhase::Early => "early"@,
        GovernancePhase::Growth => "growth"@,
        GovernancePhase::Mature => "mature"@,
    }
}

impl GovernancePhase {
    /// The stored name of the phase.
    pub fn as_str(&self) -> (res: &'static str)
        ensures
            res@ == phase_name(*self),
    {
        match self {
            GovernancePhase::Early => "early",
            GovernancePhase::Growth => "growth",
            GovernancePhase::Mature => "mature",
        }
    }
}

/// The phase given by a value against two boundaries: below `growth_from`
/// is early, below `mature_from` is growth, and the rest is mature.
pub open spec fn phase_by_bounds(v: int, growth_from: int, mature_from: int) -> GovernancePhase {
    if v < growth_from {
        GovernancePhase::Early
    } else if v < mature_from {
        GovernancePhase::Growth
    } else {
        GovernancePhase::Mature
    }
}

/// Phase by block height: early below 50,000, growth below 200,000.
pub fn determine_phase_by_height(height: u64) -> (res: GovernancePhase)
    ensures
        res == phase_by_bounds(height as int, 50_000, 200_000),
{
    if height < 50_000 {
        GovernancePhase::Early
    } else if height < 200_000 {
        GovernancePhase::Growth
    } else {
        GovernancePhase::Mature
    }
}

/// Phase by active economic node count: early below 10, growth below 30.
pub fn determine_phase_by_nodes(count: u32) -> (res: GovernancePhase)
    ensures
        res == phase_by_bounds(count as int, 10, 30),
{
    if count < 10 {
        GovernancePhase::Early
    } else if count < 30 {
        GovernancePhase::Growth
    } else {
        GovernancePhase::Mature
    }
}

/// Phase by commons contributor count: early below 10, growth below 100.
pub fn determine_phase_by_contributors(count: u32) -> (res: GovernancePhase)
    ensures
        res == phase_by_bounds(count as int, 10, 100),
{
    if count < 10 {
        GovernancePhase::Early
    } else if count < 100 {
        GovernancePhase::Growth
    } else {
        GovernancePhase::Mature
    }
}

/// The earlier of two phases.
pub fn earlier_phase(a: GovernancePhase, b: GovernancePhase) -> (res: GovernancePhase)
    ensures
        phase_rank(res) == if phase_rank(a) <= phase_rank(b) { phase_rank(a) } else { phase_rank(b) },
        res == a || res == b,
{
    match (a, b) {
        (GovernancePhase::Early, _) => a,
        (_, GovernancePhase::Early) => b,
        (GovernancePhase::Growth, _) => a,
        (_, GovernancePhase::Growth) => b,
        _ => a,
    }
}

/// The current phase: the earliest of the phases given by block height,
/// economic node count and contributor count.
pub fn current_phase(block_height: u64, economic_nodes: u32, contributors: u32) -> (res: GovernancePhase)
    ensures
        res == phase_of_rank(min3(
            phase_rank(phase_by_bounds(block_height as int, 50_000, 200_000)),
            phase_rank(phase_by_bounds(economic_nodes as int, 10, 30)),
            phase_rank(phase_by_bounds(contributors as int, 10, 100)),
        )),
{
    let h = determine_phase_by_height(block_height);
    let n = determine_phase_by_nodes(economic_nodes);
    let c = determine_phase_by_contributors(contributors);
    earlier_phase(earlier_phase(h, n), c)
}

/// The least of three integers.
pub open spec fn min3(a: int, b: int, c: int) -> int {
    if a <= b && a <= c { a } else if b <= c { b } else { c }
}

/// The current phase is never later than the phase any single metric gives,
/// and a larger metric never gives an earlier phase.
pub proof fn lemma_phase_conservative(h: u64, n: u32, c: u32, h2: u64, n2: u32, c2: u32)
    requires
        h <= h2,
        n <= n2,
        c <= c2,
    ensures
        ({
            let p = phase_of_rank(min3(
                phase_rank(phase_by_bounds(h as int, 50_000, 200_000)),
                phase_rank(phase_by_bounds(n as int, 10, 30)),
                phase_rank(phase_by_bounds(c as int, 10, 100)),
            ));
            let p2 = phase_of_rank(min3(
                phase_rank(phase_by_bounds(h2 as int, 50_000, 200_000)),
                phase_rank(phase_by_bounds(n2 as int, 10, 30)),
                phase_rank(phase_by_bounds(c2 as int, 10, 100)),
            ));
            &&& phase_rank(p) <= phase_rank(phase_by_bounds(h as int, 50_000, 200_000))
            &&& phase_rank(p) <= phase_rank(phase_by_bounds(n as int, 10, 30))
            &&& phase_rank(p) <= phase_rank(phase_by_bounds(c as int, 10, 100))
            &&& phase_rank(p) <= phase_rank(p2)
        }),
{
}

/// Number of nodes that can block a tier-4 change in each phase.
pub fn tier_4_threshold(phase: GovernancePhase) -> (res: u32)
    ensures
        res == match phase {
            GovernancePhase::Early => 2u32,
            GovernancePhase::Growth => 3u32,
            GovernancePhase::Mature => 5u32,
        },
{
    match phase {
        GovernancePhase::Early => 2,
        GovernancePhase::Growth => 3,
        GovernancePhase::Mature => 5,
    }
}

/// The veto thresholds of a phase, in percent: (hashpower, economic
/// activity).  Early 25% and 35%, growth 30% and 40%, mature 35% and 45%.
pub fn phase_veto_thresholds(phase: GovernancePhase) -> (res: (u32, u32))
    ensures
        res == match phase {
            GovernancePhase::Early => (25u32, 35u32),
            GovernancePhase::Growth => (30u32, 40u32),
            GovernancePhase::Mature => (35u32, 45u32),
        },
{
    match phase {
        GovernancePhase::Early => (25, 35),
        GovernancePhase::Growth => (30, 40),
        GovernancePhase::Mature => (35, 45),
    }
}

/// The weight cap of mining pools in a phase, in percent of the total:
/// 10% early, 20% in growth, 10% when mature.
pub fn mining_pool_weight_cap_percent(phase: GovernancePhase) -> (res: u32)
    ensures
        res == match phase {
            GovernancePhase::Early => 10u32,
            GovernancePhase::Growth => 20u32,
            GovernancePhase::Mature => 10u32,
        },
{
    match phase {
        GovernancePhase::Early => 10,
        GovernancePhase::Growth => 20,
        GovernancePhase::Mature => 10,
    }
}

} // verus!
