//! Prop-AMM pricing engine.
//!
//! Dynamic pricing that adapts to market conditions: a rolling-window
//! volatility estimator, a spread calculator that turns market conditions
//! into vAMM parameters, the byte layout of the parameter-update
//! instruction, and the keeper logic that ties them together.

pub mod arith;
pub mod types;
pub mod integration;
pub mod keeper;
pub mod le_bytes;
pub mod spread;
pub mod volatility;

pub use types::{Config, Error, MarketConditions, Notional, Price, PricingParams, Quantity, SpreadBps};
pub use volatility::VolatilityEstimator;
pub use spread::SpreadCalculator;
pub use integration::{PropAmmUpdateParams, PROP_AMM_UPDATE_TAG};
pub use keeper::Keeper;
