use prop_amm::volatility::{volatility_bps_from_std_dev, WINDOW_SIZE};
use prop_amm::{Error, VolatilityEstimator};

#[test]
fn test_volatility_zero_prices() {
    let est = VolatilityEstimator::new();
    assert_eq!(est.volatility_bps(), 0);
}

#[test]
fn test_volatility_single_price() {
    let mut est = VolatilityEstimator::new();
    est.update(100_000);
    assert_eq!(est.volatility_bps(), 0);
}

#[test]
fn test_volatility_stable_market() {
    let mut est = VolatilityEstimator::new();
    // Stable prices around 100
    for _ in 0..10 {
        est.update(100_000);
    }
    // Should be very low volatility
    let vol = est.volatility_bps();
    assert!(vol < 100);
}

#[test]
fn test_volatility_volatile_market() {
    let mut est = VolatilityEstimator::new();
    // Volatile: up and down
    est.update(100_000);
    est.update(105_000);
    est.update(100_000);
    est.update(95_000);
    est.update(100_000);

    let vol = est.volatility_bps();
    // Should be significant
    assert!(vol > 500);
}

#[test]
fn test_current_price() {
    let mut est = VolatilityEstimator::new();
    assert_eq!(est.current_price(), 0);

    est.update(100_000);
    assert_eq!(est.current_price(), 100_000);

    est.update(105_000);
    assert_eq!(est.current_price(), 105_000);
}

#[test]
fn volatile_market_exact_value() {
    let mut est = VolatilityEstimator::new();
    for p in [100_000, 105_000, 100_000, 95_000, 100_000] {
        est.update(p);
    }
    // (105000 - 95000) * 10000 / 100000
    assert_eq!(est.volatility_bps(), 1_000);
}

#[test]
fn steady_prices_have_zero_volatility() {
    let mut est = VolatilityEstimator::new();
    for _ in 0..30 {
        est.update(42);
    }
    assert_eq!(est.volatility_bps(), 0);
}

#[test]
fn volatility_is_capped() {
    let mut est = VolatilityEstimator::new();
    est.update(1);
    est.update(1_000);
    // range 999, mean 500: 999 * 10000 / 500 = 19980, capped
    assert_eq!(est.volatility_bps(), 10_000);
}

#[test]
fn zero_price_is_ignored() {
    let mut est = VolatilityEstimator::new();
    est.update(100);
    est.update(0);
    assert_eq!(est.current_price(), 100);
    assert!(!est.is_ready());
    est.update(0);
    est.update(200);
    assert!(est.is_ready());
    assert_eq!(est.current_price(), 200);
}

#[test]
fn ready_after_two_prices() {
    let mut est = VolatilityEstimator::new();
    assert!(!est.is_ready());
    est.update(10);
    assert!(!est.is_ready());
    est.update(10);
    assert!(est.is_ready());
}

#[test]
fn window_keeps_only_latest_prices() {
    let mut est = VolatilityEstimator::new();
    // an early outlier that later drops out of the window
    est.update(1_000_000);
    for _ in 0..WINDOW_SIZE {
        est.update(100);
    }
    assert_eq!(est.current_price(), 100);
    assert_eq!(est.volatility_bps(), 0);
}

#[test]
fn window_after_wraparound() {
    let mut est = VolatilityEstimator::new();
    for i in 1..=30u64 {
        est.update(1_000 + i);
    }
    // window holds 1007..=1030: range 23, mean 24444 / 24 = 1018
    assert_eq!(est.current_price(), 1_030);
    assert_eq!(est.volatility_bps(), 23 * 10_000 / 1_018);
}

#[test]
fn reset_clears_history() {
    let mut est = VolatilityEstimator::new();
    est.update(100);
    est.update(200);
    est.reset();
    assert_eq!(est.current_price(), 0);
    assert!(!est.is_ready());
    assert_eq!(est.volatility_bps(), 0);
    est.update(50);
    assert_eq!(est.current_price(), 50);
}

#[test]
fn default_and_clone() {
    let mut est = VolatilityEstimator::default();
    est.update(7);
    let copy = est.clone();
    assert_eq!(copy.current_price(), 7);
}

#[test]
fn log_return_variance_needs_three_prices() {
    let mut est = VolatilityEstimator::new();
    est.update(100);
    est.update(110);
    assert_eq!(est.log_return_variance(), Ok(None));
}

#[test]
fn log_return_variance_exact_value() {
    let mut est = VolatilityEstimator::new();
    est.update(100);
    est.update(110);
    est.update(100);
    // returns 1000 and -910, mean 45, squared deviations 955^2 twice
    assert_eq!(est.log_return_variance(), Ok(Some(2 * 955 * 955)));
}

#[test]
fn log_return_variance_overflow() {
    let mut est = VolatilityEstimator::new();
    let big: u64 = 922_337_203_685_477;
    est.update(1);
    est.update(big);
    est.update(1);
    est.update(big);
    assert_eq!(est.log_return_variance(), Err(Error::Overflow));
}

#[test]
fn std_dev_scaling() {
    assert_eq!(volatility_bps_from_std_dev(0), 0);
    assert_eq!(volatility_bps_from_std_dev(50), 5_000);
    assert_eq!(volatility_bps_from_std_dev(100), 10_000);
    assert_eq!(volatility_bps_from_std_dev(150), 10_000);
    // capped before narrowing: 4_294_977_100 would wrap to 9804 in 32 bits
    assert_eq!(volatility_bps_from_std_dev(42_949_771), 10_000);
    assert_eq!(volatility_bps_from_std_dev(u64::MAX), 10_000);
}

#[test]
fn log_return_variance_in_arrival_order() {
    let mut est = VolatilityEstimator::new();
    for _ in 0..23 {
        est.update(10_000);
    }
    est.update(10_050);
    est.update(10_000);
    // the window holds 22 x 10000, 10050, 10000: returns 21 x 0, +50, -50
    assert_eq!(est.log_return_variance(), Ok(Some(5_000 / 22)));
}

#[test]
fn log_return_variance_bounded_prices_ok() {
    let mut est = VolatilityEstimator::new();
    est.update(66);
    est.update(400_885);
    est.update(66);
    assert!(matches!(est.log_return_variance(), Ok(Some(_))));
    let mut est = VolatilityEstimator::new();
    est.update(1);
    est.update(1 << 40);
    est.update(1);
    est.update(1 << 40);
    assert!(matches!(est.log_return_variance(), Ok(Some(_))));
}
