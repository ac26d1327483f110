use lib::deploy::{DeployTier, TierDistribution};

#[test]
fn live_checked_first() {
    assert_eq!(DeployTier::from_threshold_checks(true, true), DeployTier::Live);
    assert_eq!(DeployTier::from_threshold_checks(true, false), DeployTier::Live);
}

#[test]
fn monitored_between_thresholds() {
    assert_eq!(DeployTier::from_threshold_checks(false, true), DeployTier::Monitored);
}

#[test]
fn human_gated_below_both() {
    assert_eq!(DeployTier::from_threshold_checks(false, false), DeployTier::HumanGated);
}

#[test]
fn tally_counts_each_tier() {
    let tiers = vec![DeployTier::Live, DeployTier::Live, DeployTier::Monitored, DeployTier::HumanGated];
    let d = TierDistribution::tally(&tiers);
    assert_eq!(d.live, 2);
    assert_eq!(d.monitored, 1);
    assert_eq!(d.human_gated, 1);
    assert_eq!(d.total, 4);
}

#[test]
fn tally_of_nothing_is_zero() {
    let d = TierDistribution::tally(&Vec::new());
    assert_eq!((d.live, d.monitored, d.human_gated, d.total), (0, 0, 0, 0));
}

#[test]
fn tally_counts_add_up() {
    let tiers = vec![DeployTier::HumanGated; 7];
    let d = TierDistribution::tally(&tiers);
    assert_eq!(d.human_gated, 7);
    assert_eq!(d.live + d.monitored + d.human_gated, d.total);
}

#[test]
fn default_thresholds_scenario() {
    let (live, monitored) = (0.6f32, 0.4f32);
    let tier = |composite: f32| DeployTier::from_threshold_checks(composite >= live, composite >= monitored);
    assert_eq!(tier(0.9), DeployTier::Live);
    assert_eq!(tier(0.5), DeployTier::Monitored);
    assert_eq!(tier(0.1), DeployTier::HumanGated);
    assert_eq!(tier(0.6), DeployTier::Live);
    assert_eq!(tier(0.4), DeployTier::Monitored);
}
