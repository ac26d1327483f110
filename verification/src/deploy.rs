//! Deployment tiers: where a scored tile goes, and how many tiles went where.

use vstd::prelude::*;

verus! {

/// Where a tile is deployed.
#[derive(Debug, Clone, Copy, PartialEq, Eq, Structural, Hash)]
pub enum DeployTier {
    /// Deployed directly.
    Live,
    /// Deployed under monitoring.
    Monitored,
    /// Held until a human approves it.
    HumanGated,
}

/// The tier for a belief score, given whether it reaches the live threshold and
/// whether it reaches the monitored threshold. The live threshold is tested first.
pub open spec fn tier_for(meets_live: bool, meets_monitored: bool) -> DeployTier {
    if meets_live {
        DeployTier::Live
    } else if meets_monitored {
        DeployTier::Monitored
    } else {
        DeployTier::HumanGated
    }
}

impl DeployTier {
    /// The tier for a score that does (or does not) reach the live threshold and
    /// the monitored threshold: `Live` if it reaches the live one, else
    /// `Monitored` if it reaches the monitored one, else `HumanGated`.
    pub fn from_threshold_checks(meets_live: bool, meets_monitored: bool) -> (tier: DeployTier)
        ensures
            tier == tier_for(meets_live, meets_monitored),
    {
        if meets_live {
            DeployTier::Live
        } else if meets_monitored {
            DeployTier::Monitored
        } else {
            DeployTier::HumanGated
        }
    }
}

/// How many tiles of `tiers` are in tier `t`.
pub open spec fn count_tier(tiers: Seq<DeployTier>, t: DeployTier) -> nat
    decreases tiers.len(),
{
    if tiers.len() == 0 {
        0
    } else {
        count_tier(tiers.drop_last(), t) + if tiers.last() == t { 1nat } else { 0nat }
    }
}

/// How many tiles went to each tier, out of how many.
#[derive(Debug, Clone, Copy)]
pub struct TierDistribution {
    pub live: usize,
    pub monitored: usize,
    pub human_gated: usize,
    pub total: usize,
}

/// `d` counts the tiers of `tiers`.
pub open spec fn distribution_of(d: TierDistribution, tiers: Seq<DeployTier>) -> bool {
    &&& d.live == count_tier(tiers, DeployTier::Live)
    &&& d.monitored == count_tier(tiers, DeployTier::Monitored)
    &&& d.human_gated == count_tier(tiers, DeployTier::HumanGated)
    &&& d.total == tiers.len()
}

/// Every tile is in exactly one tier: the three counts add up to the number of
/// tiles.
pub proof fn lemma_tiers_partition(tiers: Seq<DeployTier>)
    ensures
        count_tier(tiers, DeployTier::Live) + count_tier(tiers, DeployTier::Monitored)
            + count_tier(tiers, DeployTier::HumanGated) == tiers.len(),
    decreases tiers.len(),
{
    if tiers.len() > 0 {
        lemma_tiers_partition(tiers.drop_last());
    }
}

/// Each tier's count over a run with one more decision `x` at the end, wherever
/// the run stands, is its count over the run plus one exactly when `x` is in
/// that tier; an empty run counts nothing in any tier.
pub proof fn lemma_count_tier_push(s: Seq<DeployTier>, x: DeployTier, t: DeployTier)
    ensures
        count_tier(Seq::<DeployTier>::empty(), t) == 0,
        count_tier(s.push(x), t) == count_tier(s, t) + if x == t { 1nat } else { 0nat },
{
    assert(s.push(x).drop_last() =~= s);
}

/// The count of tier `t` over a run is the number of its decisions that are in
/// `t`: the length of the run filtered to tier `t`.
pub proof fn lemma_count_tier_is_filter(s: Seq<DeployTier>, t: DeployTier)
    ensures
        count_tier(s, t) == s.filter(|x: DeployTier| x == t).len(),
    decreases s.len(),
{
    reveal_with_fuel(Seq::filter, 1);
    if s.len() > 0 {
        lemma_count_tier_is_filter(s.drop_last(), t);
    }
}

impl TierDistribution {
    /// Counts the tiers of `tiers`.
    pub fn tally(tiers: &Vec<DeployTier>) -> (d: TierDistribution)
        ensures
            distribution_of(d, tiers@),
            d.live + d.monitored + d.human_gated == d.total,
            d.live == tiers@.filter(|x: DeployTier| x == DeployTier::Live).len(),
            d.monitored == tiers@.filter(|x: DeployTier| x == DeployTier::Monitored).len(),
            d.human_gated == tiers@.filter(|x: DeployTier| x == DeployTier::HumanGated).len(),
    {
        let n: usize = tiers.len();
        let mut d = TierDistribution { live: 0, monitored: 0, human_gated: 0, total: n };
        let mut i: usize = 0;
        while i < n
            invariant
                n == tiers@.len(),
                0 <= i <= n,
                d.total == n,
                d.live == count_tier(tiers@.take(i as int), DeployTier::Live),
                d.monitored == count_tier(tiers@.take(i as int), DeployTier::Monitored),
                d.human_gated == count_tier(tiers@.take(i as int), DeployTier::HumanGated),
            decreases n - i,
        {
            proof {
                lemma_tiers_partition(tiers@.take(i as int));
                assert(tiers@.take(i + 1).drop_last() =~= tiers@.take(i as int));
            }
            match tiers[i] {
                DeployTier::Live => d.live = d.live + 1,
                DeployTier::Monitored => d.monitored = d.monitored + 1,
                DeployTier::HumanGated => d.human_gated = d.human_gated + 1,
            }
            i = i + 1;
        }
        proof {
            assert(tiers@.take(n as int) =~= tiers@);
            lemma_tiers_partition(tiers@);
            lemma_count_tier_is_filter(tiers@, DeployTier::Live);
            lemma_count_tier_is_filter(tiers@, DeployTier::Monitored);
            lemma_count_tier_is_filter(tiers@, DeployTier::HumanGated);
        }
        d
    }
}

} // verus!
