use gateway_core::common::{Currency, GatewayError, Scalar};

fn scalar(x: f64) -> Scalar {
    Scalar { bits: x.to_bits() }
}

#[test]
fn currency_codes_are_uppercase_tokens() {
    assert_eq!(Currency::BTC.code(), "BTC");
    assert_eq!(Currency::ETH.code(), "ETH");
    assert_eq!(Currency::SOL.code(), "SOL");
    assert_eq!(Currency::SUI.code(), "SUI");
    assert_eq!(Currency::XRP.code(), "XRP");
}

#[test]
fn currency_codes_are_the_variant_names() {
    for cur in [Currency::BTC, Currency::ETH, Currency::SOL, Currency::SUI, Currency::XRP] {
        assert_eq!(cur.code(), format!("{:?}", cur));
    }
}

#[test]
fn currency_indices_are_distinct() {
    let all = [Currency::BTC, Currency::ETH, Currency::SOL, Currency::SUI, Currency::XRP];
    let indices: Vec<u8> = all.iter().map(|c| c.index()).collect();
    assert_eq!(indices, vec![0, 1, 2, 3, 4]);
}

#[test]
fn messages_carry_kind_and_detail() {
    assert_eq!(GatewayError::InvalidAddress("bad".to_string()).message(), "invalid address: bad");
    assert_eq!(GatewayError::Network("down".to_string()).message(), "network error: down");
    assert_eq!(GatewayError::NotImplemented.message(), "not implemented");
    assert_eq!(GatewayError::Unknown("what".to_string()).message(), "unknown: what");
    assert_eq!(GatewayError::Unknown(String::new()).message(), "unknown: ");
}

#[test]
fn unsupported_names_the_currency() {
    assert_eq!(
        GatewayError::unsupported(Currency::BTC),
        GatewayError::Unknown("no connector for BTC".to_string())
    );
    assert_eq!(
        GatewayError::unsupported(Currency::XRP).message(),
        "unknown: no connector for XRP"
    );
}

#[test]
fn is_nonpositive_agrees_with_comparison_to_zero() {
    let samples: Vec<f64> = vec![
        0.0,
        -0.0,
        1.0,
        -1.0,
        1.2345,
        -1.2345,
        1000.0,
        f64::MIN_POSITIVE,
        -f64::MIN_POSITIVE,
        5e-324,
        -5e-324,
        f64::MAX,
        f64::MIN,
        f64::INFINITY,
        f64::NEG_INFINITY,
        f64::NAN,
        -f64::NAN,
        f64::EPSILON,
    ];
    for x in samples {
        assert_eq!(scalar(x).is_nonpositive(), x <= 0.0, "{:?}", x);
    }
}

#[test]
fn is_nonpositive_on_edge_patterns() {
    let cases: Vec<(u64, bool)> = vec![
        (0x0000_0000_0000_0000, true),
        (0x0000_0000_0000_0001, false),
        (0x7FEF_FFFF_FFFF_FFFF, false),
        (0x7FF0_0000_0000_0000, false),
        (0x7FF0_0000_0000_0001, false),
        (0x7FFF_FFFF_FFFF_FFFF, false),
        (0x8000_0000_0000_0000, true),
        (0x8000_0000_0000_0001, true),
        (0xFFEF_FFFF_FFFF_FFFF, true),
        (0xFFF0_0000_0000_0000, true),
        (0xFFF0_0000_0000_0001, false),
        (0xFFFF_FFFF_FFFF_FFFF, false),
    ];
    for (bits, expected) in cases {
        assert_eq!(Scalar { bits }.is_nonpositive(), expected, "{:#018x}", bits);
        assert_eq!(f64::from_bits(bits) <= 0.0, expected, "{:#018x}", bits);
    }
}
