//! Prop-AMM keeper logic.
//!
//! The off-chain keeper watches market conditions and turns them into
//! parameter updates for the vAMM. This is its state and its decisions; the
//! service around it (RPC, signing, scheduling) runs outside the library.

use vstd::prelude::*;

use crate::integration::{PropAmmUpdateParams, fits_layout};
use crate::spread::{SpreadCalculator, calculation_defined, pricing};
use crate::types::{Config, MarketConditions, Notional, Price, PricingParams, Quantity};
use crate::volatility::{VolatilityEstimator, push_observation, range_volatility_bps};

verus! {

/// The market conditions the keeper prices from: the latest oracle price
/// and the volatility of the recorded prices, with the latest 24h volume
/// and open interest.
pub open spec fn keeper_market(
    history: Seq<Price>,
    volume_24h: Notional,
    open_interest: Quantity,
) -> MarketConditions {
    MarketConditions {
        oracle_price: if history.len() == 0 {
            0
        } else {
            history.last()
        },
        volume_24h,
        open_interest,
        trade_count_24h: 0,
        volatility_bps: range_volatility_bps(history),
    }
}

/// The update instruction's parameters for some pricing parameters.
pub open spec fn update_params_for(p: PricingParams) -> PropAmmUpdateParams {
    PropAmmUpdateParams {
        base_spread_bps: p.base_spread_bps,
        trading_fee_bps: p.fee_bps,
        impact_k_bps: p.impact_k_bps,
        max_fill_abs: p.max_fill as u128,
        max_inventory_abs: p.max_inventory as u128,
    }
}

/// After fresh market data with a nonzero price, the keeper prices at that
/// price, with the volume and open interest just reported, the volatility
/// of the window that now ends with that price, and no trade count.
pub proof fn lemma_keeper_prices_latest_data(
    history: Seq<Price>,
    oracle_price: Price,
    volume_24h: Notional,
    open_interest: Quantity,
)
    requires
        oracle_price > 0,
    ensures
        ({
            let h = push_observation(history, oracle_price);
            let m = keeper_market(h, volume_24h, open_interest);
            &&& m.oracle_price == oracle_price
            &&& m.volume_24h == volume_24h
            &&& m.open_interest == open_interest
            &&& m.trade_count_24h == 0
            &&& m.volatility_bps == range_volatility_bps(h)
            &&& h.last() == oracle_price
        }),
{
}

/// Keeper state.
pub struct Keeper {
    volatility: VolatilityEstimator,
    calculator: SpreadCalculator,
    /// Latest 24h volume reported
    volume_24h: Notional,
    /// Latest open interest reported
    open_interest: Quantity,
}

impl Keeper {
    /// The keeper's volatility estimator.
    pub closed spec fn estimator(self) -> VolatilityEstimator {
        self.volatility
    }

    /// The recorded prices, oldest first.
    pub open spec fn history(self) -> Seq<Price> {
        self.estimator().history()
    }

    /// The configuration the keeper prices with.
    pub closed spec fn spec_config(self) -> Config {
        self.calculator.spec_config()
    }

    /// The market conditions the keeper currently prices from.
    pub closed spec fn market(self) -> MarketConditions {
        keeper_market(self.volatility.history(), self.volume_24h, self.open_interest)
    }

    /// Create a keeper with a pricing configuration.
    pub fn new(config: Config) -> (k: Self)
        ensures
            k.history() == Seq::<Price>::empty(),
            k.spec_config() == config,
            k.market() == keeper_market(Seq::<Price>::empty(), 0, 0),
    {
        Self {
            volatility: VolatilityEstimator::new(),
            calculator: SpreadCalculator::new(config),
            volume_24h: 0,
            open_interest: 0,
        }
    }

    /// Record fresh market data from the oracle and the pool.
    pub fn update_market_data(&mut self, oracle_price: u64, volume_24h: u128, oi: i128)
        ensures
            final(self).history() == push_observation(old(self).history(), oracle_price),
            final(self).spec_config() == old(self).spec_config(),
            final(self).market() == keeper_market(final(self).history(), volume_24h, oi),
    {
        self.volatility.update(oracle_price);
        self.volume_24h = volume_24h;
        self.open_interest = oi;
    }

    /// Whether `calculate_update` is defined in the current state (the
    /// spread computation stays within its integer types).
    pub fn update_is_defined(&self) -> (b: bool)
        ensures
            b == calculation_defined(self.spec_config(), self.market(), 0),
    {
        let market = self.current_market();
        self.calculator.is_defined_for(&market, 0)
    }

    /// The market conditions the keeper prices from.
    fn current_market(&self) -> (m: MarketConditions)
        ensures
            m == self.market(),
    {
        MarketConditions {
            oracle_price: self.volatility.current_price(),
            volume_24h: self.volume_24h,
            open_interest: self.open_interest,
            trade_count_24h: 0,
            volatility_bps: self.volatility.volatility_bps(),
        }
    }

    /// Calculate new parameters for the update instruction.
    pub fn calculate_update(&self) -> (u: PropAmmUpdateParams)
        requires
            calculation_defined(self.spec_config(), self.market(), 0),
        ensures
            u == update_params_for(pricing(self.spec_config(), self.market(), 0)),
            fits_layout(u),
    {
        let market = self.current_market();
        // the inventory level is not known here
        let inventory_pct: u8 = 0;
        let params = self.calculator.calculate(&market, inventory_pct);
        PropAmmUpdateParams {
            base_spread_bps: params.base_spread_bps,
            trading_fee_bps: params.fee_bps,
            impact_k_bps: params.impact_k_bps,
            max_fill_abs: params.max_fill as u128,
            max_inventory_abs: params.max_inventory as u128,
        }
    }

    /// The keeper's volatility estimator.
    pub fn volatility(&self) -> (v: &VolatilityEstimator)
        ensures
            *v == self.estimator(),
    {
        &self.volatility
    }
}

} // verus!
