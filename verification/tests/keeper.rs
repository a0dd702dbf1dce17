use prop_amm::{Config, Keeper};

#[test]
fn test_keeper_initialization() {
    let keeper = Keeper::new(Config::default());

    assert!(!keeper.volatility().is_ready());
}

#[test]
fn test_volatility_accumulation() {
    let mut keeper = Keeper::new(Config::default());

    // Add price updates
    keeper.update_market_data(100_000_000, 0, 0);
    keeper.update_market_data(105_000_000, 0, 0);
    keeper.update_market_data(100_000_000, 0, 0);

    assert!(keeper.volatility().is_ready());
}

#[test]
fn test_param_calculation() {
    let mut keeper = Keeper::new(Config::default());

    // Add some price history
    for _ in 0..10 {
        keeper.update_market_data(100_000_000, 10_000_000_000_000, 1_000_000);
    }

    let params = keeper.calculate_update();

    // Should have tight spreads for liquid market
    assert!(params.base_spread_bps <= 10);
}

#[test]
fn keeper_without_market_data_quotes_wide() {
    let keeper = Keeper::new(Config::default());
    assert!(keeper.update_is_defined());
    let p = keeper.calculate_update();
    assert_eq!(p.base_spread_bps, 100);
    assert_eq!(p.trading_fee_bps, 10);
    assert_eq!(p.impact_k_bps, 200);
    assert_eq!(p.max_fill_abs, 1_000);
    assert_eq!(p.max_inventory_abs, 10_000);
}

#[test]
fn keeper_liquid_exact_update() {
    let mut keeper = Keeper::new(Config::default());
    for _ in 0..10 {
        keeper.update_market_data(100_000_000, 10_000_000_000_000, 1_000_000);
    }
    let p = keeper.calculate_update();
    assert_eq!(p.base_spread_bps, 3);
    assert_eq!(p.trading_fee_bps, 2);
    assert_eq!(p.impact_k_bps, 50);
    assert_eq!(p.max_fill_abs, 1_000);
    assert_eq!(p.max_inventory_abs, 100_000);
    let data = p.encode();
    assert_eq!(data[0], 3);
    assert_eq!(data[1], 3);
}

#[test]
fn keeper_volatile_prices_widen() {
    let mut keeper = Keeper::new(Config::default());
    for price in [100_000_000u64, 110_000_000, 90_000_000] {
        keeper.update_market_data(price, 10_000_000_000_000, 0);
    }
    // range 20M over mean 100M = 2000 bps, above the high threshold
    assert_eq!(keeper.calculate_update().base_spread_bps, 500);
    assert_eq!(keeper.volatility().current_price(), 90_000_000);
}
