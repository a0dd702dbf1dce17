use prop_amm::{Config, Error, MarketConditions, PricingParams, SpreadCalculator};

fn liquid_market() -> MarketConditions {
    MarketConditions {
        oracle_price: 100_000_000,      // $100
        volume_24h: 10_000_000_000_000, // $10M
        open_interest: 1_000_000,
        trade_count_24h: 10_000,
        volatility_bps: 50,
    }
}

fn thin_market() -> MarketConditions {
    MarketConditions {
        oracle_price: 100_000_000,
        volume_24h: 100_000_000, // $100K
        open_interest: 1_000,
        trade_count_24h: 10,
        volatility_bps: 500,
    }
}

#[test]
fn test_liquid_market_tight_spread() {
    let calc = SpreadCalculator::default();
    let params = calc.calculate(&liquid_market(), 0);

    assert!(params.base_spread_bps <= 10);
}

#[test]
fn test_thin_market_wide_spread() {
    let calc = SpreadCalculator::default();
    let params = calc.calculate(&thin_market(), 0);

    assert!(params.base_spread_bps >= 50);
}

#[test]
fn test_inventory_risk() {
    let calc = SpreadCalculator::default();

    // At 0% inventory, no premium
    let params0 = calc.calculate(&liquid_market(), 0);

    // At 90% inventory, premium applies
    let params90 = calc.calculate(&liquid_market(), 90);

    assert!(params90.base_spread_bps > params0.base_spread_bps);
}

#[test]
fn test_impact_k_liquid() {
    let calc = SpreadCalculator::default();
    let params = calc.calculate(&liquid_market(), 0);

    assert!(params.impact_k_bps <= 100);
}

#[test]
fn test_impact_k_thin() {
    let calc = SpreadCalculator::default();
    let params = calc.calculate(&thin_market(), 0);

    assert!(params.impact_k_bps >= 100);
}

fn assert_params(p: PricingParams, spread: u32, fee: u32, k: u32, fill: i128, inv: i128) {
    assert_eq!(p.base_spread_bps, spread);
    assert_eq!(p.fee_bps, fee);
    assert_eq!(p.impact_k_bps, k);
    assert_eq!(p.max_fill, fill);
    assert_eq!(p.max_inventory, inv);
}

#[test]
fn liquid_market_exact_params() {
    let calc = SpreadCalculator::default();
    let p = calc.calculate(&liquid_market(), 0);
    // 10M / $100 = 100_000 base units, 1% = 1_000; 10% of OI = 100_000
    assert_params(p, 3, 2, 50, 1_000, 100_000);
}

#[test]
fn thin_market_exact_params() {
    let calc = SpreadCalculator::default();
    let p = calc.calculate(&thin_market(), 0);
    // tight 3 + max 500 (high volatility), capped at 500
    assert_params(p, 500, 10, 200, 1_000, 1_000);
}

#[test]
fn interpolated_market_exact_params() {
    let calc = SpreadCalculator::default();
    let m = MarketConditions {
        oracle_price: 1_000_000,
        volume_24h: 500_000_000_000, // half the liquid threshold
        open_interest: -50_000,
        trade_count_24h: 0,
        volatility_bps: 300, // halfway between low and high
    };
    let p = calc.calculate(&m, 0);
    // volume part 3 + 97 * 50 / 100 = 51; volatility part 497 * 50 / 100 = 248
    // fill 500_000 / 100 = 5_000; inventory |-50_000| / 10 = 5_000
    assert_params(p, 299, 5, 125, 5_000, 5_000);
}

#[test]
fn no_volume_uses_wide_spread() {
    let calc = SpreadCalculator::default();
    let m = MarketConditions {
        oracle_price: 1,
        volume_24h: 0,
        open_interest: 0,
        trade_count_24h: 0,
        volatility_bps: 9_000,
    };
    let p = calc.calculate(&m, 0);
    assert_params(p, 100, 10, 200, 1_000, 10_000);
}

#[test]
fn zero_price_fill_default() {
    let calc = SpreadCalculator::default();
    let mut m = liquid_market();
    m.oracle_price = 0;
    assert_eq!(calc.calculate(&m, 0).max_fill, 10_000);
}

#[test]
fn fill_and_inventory_caps() {
    let calc = SpreadCalculator::default();
    let mut m = liquid_market();
    m.oracle_price = 1;
    m.open_interest = i128::MIN;
    let p = calc.calculate(&m, 0);
    assert_eq!(p.max_fill, 1_000_000);
    assert_eq!(p.max_inventory, 100_000);
}

#[test]
fn inventory_premium_scales_and_caps() {
    let calc = SpreadCalculator::default();
    let m = liquid_market();
    assert_eq!(calc.calculate(&m, 80).base_spread_bps, 3);
    // (90 - 80) * 50 / 20 = 25
    assert_eq!(calc.calculate(&m, 90).base_spread_bps, 28);
    assert_eq!(calc.calculate(&m, 100).base_spread_bps, 53);
    // over 100% the premium stays capped at 50
    assert_eq!(calc.calculate(&m, 200).base_spread_bps, 53);
}

#[test]
fn spread_capped_at_max() {
    let calc = SpreadCalculator::default();
    let mut m = thin_market();
    m.volatility_bps = 10_000;
    assert_eq!(calc.calculate(&m, 100).base_spread_bps, 500);
}

#[test]
fn medium_volume_fee() {
    let calc = SpreadCalculator::default();
    let mut m = liquid_market();
    m.volume_24h = 100_000_000_000;
    assert_eq!(calc.calculate(&m, 0).fee_bps, 5);
    m.volume_24h = 99_999_999_999;
    assert_eq!(calc.calculate(&m, 0).fee_bps, 10);
}

#[test]
fn config_accessors() {
    let mut calc = SpreadCalculator::new(Config::default());
    assert_eq!(calc.config().max_spread_bps, 500);
    let mut c = Config::default();
    c.max_spread_bps = 20;
    calc.set_config(c);
    assert_eq!(calc.config().max_spread_bps, 20);
    assert_eq!(calc.calculate(&thin_market(), 0).base_spread_bps, 20);
    let d: SpreadCalculator = Default::default();
    assert_eq!(d.config().liquid_threshold, 1_000_000_000_000);
}

#[test]
fn default_config_values() {
    let c = Config::default();
    assert_eq!(c.min_spread_bps, 2);
    assert_eq!(c.max_spread_bps, 500);
    assert_eq!(c.tight_spread_bps, 3);
    assert_eq!(c.wide_spread_bps, 100);
    assert_eq!(c.liquid_threshold, 1_000_000_000_000);
    assert_eq!(c.vol_high_bps, 500);
    assert_eq!(c.vol_low_bps, 100);
    assert_eq!(c.inventory_risk_bps, 50);
    assert_eq!(c.max_inventory_pct, 80);
}

#[test]
fn definedness_check() {
    let calc = SpreadCalculator::default();
    assert!(calc.is_defined_for(&liquid_market(), 0));
    assert!(calc.is_defined_for(&thin_market(), 255));
    let mut c = Config::default();
    c.tight_spread_bps = 200; // above the wide spread
    let odd = SpreadCalculator::new(c);
    assert!(!odd.is_defined_for(&thin_market(), 0));
    assert!(odd.is_defined_for(&liquid_market(), 0));
    let mut c = Config::default();
    c.max_inventory_pct = 100;
    let full = SpreadCalculator::new(c);
    assert!(full.is_defined_for(&liquid_market(), 100));
    assert!(!full.is_defined_for(&liquid_market(), 101));
}

#[test]
fn pricing_params_constructors() {
    let p = PricingParams::new(1, 2, 3, 4, 5);
    assert_params(p, 1, 2, 3, 4, 5);
    assert_params(PricingParams::liquid(), 3, 2, 50, 1_000_000, 100_000);
    assert_params(PricingParams::thin(), 100, 5, 200, 10_000, 1_000);
}

#[test]
fn error_names() {
    assert_eq!(Error::OracleZero.as_str(), "oracle_zero");
    assert_eq!(Error::Overflow.as_str(), "overflow");
    assert_eq!(Error::Underflow.as_str(), "underflow");
    assert_eq!(Error::InvalidParam.as_str(), "invalid_param");
    assert_eq!(Error::InsufficientData.as_str(), "insufficient_data");
}

#[test]
fn minimum_spread_applied() {
    let mut c = Config::default();
    c.tight_spread_bps = 1;
    let calc = SpreadCalculator::new(c);
    assert_eq!(calc.calculate(&liquid_market(), 0).base_spread_bps, 2);
}

#[test]
fn deeper_market_not_quoted_wider() {
    let calc = SpreadCalculator::default();
    let m1 = MarketConditions {
        oracle_price: 100_000_000,
        volume_24h: 100_000_000_000,
        ..Default::default()
    };
    let m2 = MarketConditions { volume_24h: 900_000_000_000, ..m1 };
    // 3 + 97 * 90 / 100 = 90 and 3 + 97 * 10 / 100 = 12
    assert_eq!(calc.calculate(&m1, 0).base_spread_bps, 90);
    assert_eq!(calc.calculate(&m2, 0).base_spread_bps, 12);
    let m3 = MarketConditions { volume_24h: 1, ..m1 };
    assert_eq!(calc.calculate(&m3, 0).base_spread_bps, 100);
}
