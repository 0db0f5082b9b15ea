use gateway_core::common::Scalar;
use gateway_core::config::{FeeConfig, FeeTier};

fn tier(min: u64, rate: f64) -> FeeTier {
    FeeTier { min_tx_count_30d: min, percent: Scalar { bits: rate.to_bits() } }
}

fn rate(t: &FeeTier) -> f64 {
    f64::from_bits(t.percent.bits)
}

#[test]
fn defaults_hold_the_five_tier_schedule() {
    let cfg = FeeConfig::defaults();
    let got: Vec<(u64, f64)> = cfg.tiers.iter().map(|t| (t.min_tx_count_30d, rate(t))).collect();
    assert_eq!(
        got,
        vec![(0, 0.005), (100, 0.004), (1_000, 0.003), (10_000, 0.002), (100_000, 0.001)]
    );
}

#[test]
fn default_rates_fall_as_thresholds_rise() {
    let cfg = FeeConfig::defaults();
    for pair in cfg.tiers.windows(2) {
        assert!(pair[0].min_tx_count_30d < pair[1].min_tx_count_30d);
        assert!(rate(&pair[0]) > rate(&pair[1]));
    }
}

#[test]
fn from_env_without_tiers_gives_the_defaults() {
    let cfg = FeeConfig::from_env(Vec::new());
    assert_eq!(cfg.tiers, FeeConfig::defaults().tiers);
}

#[test]
fn from_env_sorts_by_threshold() {
    let cfg = FeeConfig::from_env(vec![tier(1_000, 0.003), tier(0, 0.005), tier(100, 0.004)]);
    assert_eq!(cfg.tiers, vec![tier(0, 0.005), tier(100, 0.004), tier(1_000, 0.003)]);
}

#[test]
fn from_env_keeps_equal_thresholds_in_the_order_given() {
    let cfg = FeeConfig::from_env(vec![
        tier(50, 0.5),
        tier(10, 0.1),
        tier(50, 0.25),
        tier(10, 0.2),
        tier(50, 0.125),
    ]);
    assert_eq!(
        cfg.tiers,
        vec![tier(10, 0.1), tier(10, 0.2), tier(50, 0.5), tier(50, 0.25), tier(50, 0.125)]
    );
}

#[test]
fn from_env_keeps_a_single_tier() {
    let cfg = FeeConfig::from_env(vec![tier(7, 0.07)]);
    assert_eq!(cfg.tiers, vec![tier(7, 0.07)]);
}

#[test]
fn from_env_agrees_with_a_stable_sort() {
    let mut seed: u64 = 0x9E37_79B9_7F4A_7C15;
    for len in 0usize..40 {
        let mut tiers: Vec<FeeTier> = Vec::new();
        for i in 0..len {
            seed = seed.wrapping_mul(6364136223846793005).wrapping_add(1442695040888963407);
            tiers.push(FeeTier {
                min_tx_count_30d: (seed >> 60) % 6,
                percent: Scalar { bits: i as u64 },
            });
        }
        let mut expected = tiers.clone();
        expected.sort_by_key(|t| t.min_tx_count_30d);
        if expected.is_empty() {
            expected = FeeConfig::defaults().tiers;
        }
        assert_eq!(FeeConfig::from_env(tiers).tiers, expected);
    }
}

#[test]
fn tier_for_picks_the_greatest_threshold_not_above_the_count() {
    let cfg = FeeConfig::defaults();
    let cases: Vec<(u64, u64)> = vec![
        (0, 0),
        (1, 0),
        (99, 0),
        (100, 100),
        (101, 100),
        (999, 100),
        (1_000, 1_000),
        (9_999, 1_000),
        (10_000, 10_000),
        (99_999, 10_000),
        (100_000, 100_000),
        (u64::MAX, 100_000),
    ];
    for (count, threshold) in cases {
        assert_eq!(cfg.tier_for(count).min_tx_count_30d, threshold, "count {}", count);
    }
}

#[test]
fn tier_for_returns_the_rate_of_the_tier() {
    let cfg = FeeConfig::defaults();
    assert_eq!(rate(&cfg.tier_for(0)), 0.005);
    assert_eq!(rate(&cfg.tier_for(100)), 0.004);
    assert_eq!(rate(&cfg.tier_for(5_000)), 0.003);
    assert_eq!(rate(&cfg.tier_for(50_000)), 0.002);
    assert_eq!(rate(&cfg.tier_for(1_000_000)), 0.001);
}

#[test]
fn tier_for_falls_back_to_the_first_tier_below_every_threshold() {
    let cfg = FeeConfig::from_env(vec![tier(500, 0.02), tier(100, 0.04)]);
    assert_eq!(cfg.tier_for(0), tier(100, 0.04));
    assert_eq!(cfg.tier_for(99), tier(100, 0.04));
    assert_eq!(cfg.tier_for(100), tier(100, 0.04));
    assert_eq!(cfg.tier_for(499), tier(100, 0.04));
    assert_eq!(cfg.tier_for(500), tier(500, 0.02));
}

#[test]
fn tier_for_stops_at_the_first_threshold_above_the_count() {
    // a schedule put together by hand, out of order
    let cfg = FeeConfig { tiers: vec![tier(0, 0.5), tier(1_000, 0.3), tier(100, 0.4)] };
    assert_eq!(cfg.tier_for(500), tier(0, 0.5));
    assert_eq!(cfg.tier_for(1_000), tier(100, 0.4));
}

#[test]
fn base_tier_applies_below_every_other_threshold() {
    let cfg = FeeConfig::from_env(vec![tier(40, 0.1), tier(0, 0.9), tier(20, 0.5)]);
    for count in 0u64..20 {
        assert_eq!(cfg.tier_for(count).min_tx_count_30d, 0);
    }
}
