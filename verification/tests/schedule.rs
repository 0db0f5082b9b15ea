use gateway_core::common::Scalar;
use gateway_core::config::{FeeConfig, FeeTier};
use gateway_core::registry::Registry;
use gateway_core::mock::MockConnector;
use gateway_core::common::Currency;
use gateway_core::tier_text::parse_tier_entries;

/// The schedule that a text configures: the entries whose rate reads as a
/// number, sorted; the defaults where there is none.
fn schedule_of(text: &str) -> Vec<(u64, f64)> {
    let mut tiers: Vec<FeeTier> = Vec::new();
    for entry in parse_tier_entries(text) {
        if let Ok(p) = entry.percent_text.parse::<f64>() {
            tiers.push(FeeTier {
                min_tx_count_30d: entry.min_tx_count_30d,
                percent: Scalar { bits: p.to_bits() },
            });
        }
    }
    FeeConfig::from_env(tiers)
        .tiers
        .iter()
        .map(|t| (t.min_tx_count_30d, f64::from_bits(t.percent.bits)))
        .collect()
}

fn defaults() -> Vec<(u64, f64)> {
    vec![(0, 0.005), (100, 0.004), (1_000, 0.003), (10_000, 0.002), (100_000, 0.001)]
}

#[test]
fn schedule_text_of_the_defaults_gives_the_defaults() {
    assert_eq!(schedule_of("0:0.005,100:0.004,1000:0.003,10000:0.002,100000:0.001"), defaults());
}

#[test]
fn schedule_text_out_of_order_is_sorted() {
    assert_eq!(
        schedule_of("1000:0.003, 0:0.005, 100:0.004"),
        vec![(0, 0.005), (100, 0.004), (1_000, 0.003)]
    );
}

#[test]
fn schedule_text_without_a_tier_falls_back_to_the_defaults() {
    for text in ["", "garbage", "1:x", "x:1", ":", ",,,", "-1:0.5", "1.5:0.5", "1;0.5"] {
        assert_eq!(schedule_of(text), defaults(), "text {:?}", text);
    }
}

#[test]
fn schedule_text_keeps_the_entries_that_read() {
    assert_eq!(schedule_of("50:0.01,bad,7:nope,5:0.02"), vec![(5, 0.02), (50, 0.01)]);
}

#[test]
fn schedule_built_from_text_ascends_and_is_not_empty() {
    let texts = ["", "3:1,1:2,2:3", "9:0.1,9:0.2,1:0.3", "x", "5:0.5", "2:1e-3,1:.5,0:5."];
    for text in texts {
        let got = schedule_of(text);
        assert!(!got.is_empty(), "text {:?}", text);
        for pair in got.windows(2) {
            assert!(pair[0].0 <= pair[1].0, "text {:?}", text);
        }
    }
}

#[test]
fn default_registry_is_empty() {
    let reg: Registry<MockConnector> = Registry::default();
    assert!(reg.get(Currency::BTC).is_err());
    assert!(reg.get(Currency::XRP).is_err());
}
