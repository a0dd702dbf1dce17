//! Dynamic spread calculator.
//!
//! Calculates spreads, fees, impact and size limits from market conditions
//! and inventory.

use vstd::prelude::*;

use crate::types::{Config, MarketConditions, PricingParams, Quantity, default_config};

verus! {

/// `a + b`, saturating at `u32::MAX`.
pub open spec fn sat_add_u32(a: u32, b: u32) -> u32 {
    if a + b > u32::MAX {
        u32::MAX
    } else {
        (a + b) as u32
    }
}

/// The larger of two `u32` values.
pub open spec fn max_u32(a: u32, b: u32) -> u32 {
    if a >= b {
        a
    } else {
        b
    }
}

/// The smaller of two `u32` values.
pub open spec fn min_u32(a: u32, b: u32) -> u32 {
    if a <= b {
        a
    } else {
        b
    }
}

/// Position of the 24h volume between zero and the liquidity threshold, in
/// percent (meaningful when the volume is below the threshold).
pub open spec fn volume_ratio(c: Config, m: MarketConditions) -> int {
    (m.volume_24h * 100) / (c.liquid_threshold as int)
}

/// Position of the volatility between the low and high thresholds, in
/// percent (meaningful when it lies strictly between them).
pub open spec fn volatility_ratio(c: Config, m: MarketConditions) -> int {
    ((m.volatility_bps - c.vol_low_bps) * 100) / ((c.vol_high_bps - c.vol_low_bps) as int)
}

/// The volume part of the base spread (for a nonzero volume): the tight
/// spread for liquid markets, otherwise falling linearly from the wide
/// spread toward the tight one as the volume approaches the threshold.
pub open spec fn volume_spread(c: Config, m: MarketConditions) -> int {
    if m.volume_24h >= c.liquid_threshold {
        c.tight_spread_bps as int
    } else {
        c.tight_spread_bps + ((c.wide_spread_bps - c.tight_spread_bps) * (100 - volume_ratio(c, m)))
            / 100
    }
}

/// The volatility part of the base spread (for a nonzero volume).
pub open spec fn volatility_spread(c: Config, m: MarketConditions) -> int {
    if m.volatility_bps >= c.vol_high_bps {
        c.max_spread_bps as int
    } else if m.volatility_bps <= c.vol_low_bps {
        0
    } else {
        ((c.max_spread_bps - c.tight_spread_bps) * volatility_ratio(c, m)) / 100
    }
}

/// The base spread computation stays within its integer types: no
/// overflow, no underflow.
pub open spec fn base_spread_defined(c: Config, m: MarketConditions) -> bool {
    m.volume_24h == 0 || {
        &&& m.volume_24h < c.liquid_threshold ==> {
            &&& m.volume_24h * 100 <= u128::MAX
            &&& c.tight_spread_bps <= c.wide_spread_bps
            &&& (c.wide_spread_bps - c.tight_spread_bps) * (100 - volume_ratio(c, m)) <= u32::MAX
            &&& volume_spread(c, m) <= u32::MAX
        }
        &&& c.vol_low_bps < m.volatility_bps < c.vol_high_bps ==> {
            &&& (m.volatility_bps - c.vol_low_bps) * 100 <= u32::MAX
            &&& c.tight_spread_bps <= c.max_spread_bps
            &&& (c.max_spread_bps - c.tight_spread_bps) * volatility_ratio(c, m) <= u32::MAX
        }
    }
}

/// Base spread from market conditions: wide without volume data, otherwise
/// the volume part plus the volatility part (saturating).
pub open spec fn base_spread(c: Config, m: MarketConditions) -> u32 {
    if m.volume_24h == 0 {
        c.wide_spread_bps
    } else {
        sat_add_u32(volume_spread(c, m) as u32, volatility_spread(c, m) as u32)
    }
}

/// The inventory premium computation stays within its integer types.
pub open spec fn inventory_premium_defined(c: Config, inventory_pct: u8) -> bool {
    inventory_pct <= c.max_inventory_pct || (c.max_inventory_pct < 100 && (inventory_pct
        - c.max_inventory_pct) * c.inventory_risk_bps <= u32::MAX)
}

/// Inventory risk premium: zero up to the inventory threshold, then growing
/// with the overage up to `inventory_risk_bps`.
pub open spec fn inventory_premium(c: Config, inventory_pct: u8) -> u32 {
    if inventory_pct <= c.max_inventory_pct {
        0
    } else {
        let premium = ((inventory_pct - c.max_inventory_pct) * c.inventory_risk_bps) / (100
            - c.max_inventory_pct);
        min_u32(premium as u32, c.inventory_risk_bps)
    }
}

/// The impact computation stays within its integer types.
pub open spec fn impact_k_defined(c: Config, m: MarketConditions) -> bool {
    m.volume_24h == 0 || m.volume_24h >= c.liquid_threshold || m.volume_24h * 100 <= u128::MAX
}

/// Impact coefficient: 200 without volume, 50 for liquid markets, and in
/// between falling linearly with the volume.
pub open spec fn impact_k(c: Config, m: MarketConditions) -> u32 {
    if m.volume_24h == 0 {
        200
    } else if m.volume_24h >= c.liquid_threshold {
        50
    } else {
        (50 + (150 * (100 - volume_ratio(c, m))) / 100) as u32
    }
}

/// `v` clamped to `[lo, hi]`.
pub open spec fn clamp(v: int, lo: int, hi: int) -> int {
    if v > hi {
        hi
    } else if v < lo {
        lo
    } else {
        v
    }
}

/// Max fill: 1% of the 24h volume in base units, clamped to
/// `[1_000, 1_000_000]`; 1_000 without volume, 10_000 without a price.
pub open spec fn max_fill(m: MarketConditions) -> Quantity {
    if m.volume_24h == 0 {
        1_000
    } else if m.oracle_price == 0 {
        10_000
    } else {
        clamp((m.volume_24h as int / m.oracle_price as int) / 100, 1_000, 1_000_000) as Quantity
    }
}

/// `|x|` for a signed quantity.
pub open spec fn abs_int(x: int) -> int {
    if x < 0 {
        -x
    } else {
        x
    }
}

/// Max inventory: 10% of the open interest (in absolute value), clamped to
/// `[1_000, 100_000]`; 10_000 without open interest.
pub open spec fn max_inventory(m: MarketConditions) -> Quantity {
    if m.open_interest == 0 {
        10_000
    } else {
        clamp(abs_int(m.open_interest as int) / 10, 1_000, 100_000) as Quantity
    }
}

/// Trading fee: 2 bps for liquid markets, 5 bps from a tenth of the
/// liquidity threshold, 10 bps below.
pub open spec fn fee(c: Config, m: MarketConditions) -> u32 {
    if m.volume_24h >= c.liquid_threshold {
        2
    } else if m.volume_24h >= c.liquid_threshold / 10 {
        5
    } else {
        10
    }
}

/// `calculate` stays within its integer types on these inputs.
pub open spec fn calculation_defined(c: Config, m: MarketConditions, inventory_pct: u8) -> bool {
    &&& base_spread_defined(c, m)
    &&& inventory_premium_defined(c, inventory_pct)
    &&& impact_k_defined(c, m)
}

/// A spread raised to the configured minimum, then capped at the maximum.
pub open spec fn bounded_spread(c: Config, s: u32) -> u32 {
    min_u32(max_u32(s, c.min_spread_bps), c.max_spread_bps)
}

/// The pricing parameters for a configuration, market and inventory level.
pub open spec fn pricing(c: Config, m: MarketConditions, inventory_pct: u8) -> PricingParams {
    PricingParams {
        base_spread_bps: bounded_spread(
            c,
            sat_add_u32(base_spread(c, m), inventory_premium(c, inventory_pct)),
        ),
        fee_bps: fee(c, m),
        impact_k_bps: impact_k(c, m),
        max_fill: max_fill(m),
        max_inventory: max_inventory(m),
    }
}

/// A part below a whole, in percent, is below 100.
proof fn lemma_percent_below_whole(part: int, whole: int)
    requires
        0 <= part < whole,
    ensures
        0 <= (part * 100) / whole < 100,
{
    vstd::arithmetic::div_mod::lemma_fundamental_div_mod(part * 100, whole);
    vstd::arithmetic::div_mod::lemma_div_pos_is_pos(part * 100, whole);
    let q = (part * 100) / whole;
    let r = (part * 100) % whole;
    assert(q < 100) by (nonlinear_arith)
        requires
            part * 100 == whole * q + r,
            0 <= r,
            0 <= part < whole,
    {
        if q >= 100 {
            assert(whole * q >= whole * 100);
        }
    }
}


/// Two markets that differ at most in their 24h volume.
pub open spec fn same_but_volume(m1: MarketConditions, m2: MarketConditions) -> bool {
    &&& m1.oracle_price == m2.oracle_price
    &&& m1.open_interest == m2.open_interest
    &&& m1.trade_count_24h == m2.trade_count_24h
    &&& m1.volatility_bps == m2.volatility_bps
}

/// Two markets that differ at most in their volatility.
pub open spec fn same_but_volatility(m1: MarketConditions, m2: MarketConditions) -> bool {
    &&& m1.oracle_price == m2.oracle_price
    &&& m1.volume_24h == m2.volume_24h
    &&& m1.open_interest == m2.open_interest
    &&& m1.trade_count_24h == m2.trade_count_24h
}

/// The inventory premium is zero up to the inventory threshold, never
/// exceeds `inventory_risk_bps`, and grows with the inventory level.
pub proof fn lemma_inventory_premium_shape(c: Config, p1: u8, p2: u8)
    requires
        p1 <= p2,
        inventory_premium_defined(c, p1),
        inventory_premium_defined(c, p2),
    ensures
        p1 <= c.max_inventory_pct ==> inventory_premium(c, p1) == 0,
        inventory_premium(c, p1) <= c.inventory_risk_bps,
        inventory_premium(c, p1) <= inventory_premium(c, p2),
{
    if p1 > c.max_inventory_pct {
        let d = 100 - c.max_inventory_pct;
        let a = (p1 - c.max_inventory_pct) * c.inventory_risk_bps;
        let b = (p2 - c.max_inventory_pct) * c.inventory_risk_bps;
        assert(a <= b) by (nonlinear_arith)
            requires
                0 <= p1 - c.max_inventory_pct <= p2 - c.max_inventory_pct,
                c.inventory_risk_bps >= 0,
                a == (p1 - c.max_inventory_pct) * c.inventory_risk_bps,
                b == (p2 - c.max_inventory_pct) * c.inventory_risk_bps,
        ;
        vstd::arithmetic::div_mod::lemma_div_is_ordered(a, b, d);
    }
}

/// A fuller inventory never narrows the spread, and the inventory level
/// changes nothing but the spread.
pub proof fn lemma_spread_monotone_in_inventory(c: Config, m: MarketConditions, p1: u8, p2: u8)
    requires
        p1 <= p2,
        calculation_defined(c, m, p1),
        calculation_defined(c, m, p2),
    ensures
        pricing(c, m, p1).base_spread_bps <= pricing(c, m, p2).base_spread_bps,
        pricing(c, m, p1).fee_bps == pricing(c, m, p2).fee_bps,
        pricing(c, m, p1).impact_k_bps == pricing(c, m, p2).impact_k_bps,
        pricing(c, m, p1).max_fill == pricing(c, m, p2).max_fill,
        pricing(c, m, p1).max_inventory == pricing(c, m, p2).max_inventory,
{
    lemma_inventory_premium_shape(c, p1, p2);
}

/// Higher volatility never narrows the base spread.
proof fn lemma_volatility_spread_monotone(c: Config, m1: MarketConditions, m2: MarketConditions)
    requires
        same_but_volatility(m1, m2),
        m1.volatility_bps <= m2.volatility_bps,
        m1.volume_24h > 0,
        base_spread_defined(c, m1),
        base_spread_defined(c, m2),
    ensures
        0 <= volatility_spread(c, m1) <= volatility_spread(c, m2) <= u32::MAX,
{
    let lo = c.vol_low_bps as int;
    let hi = c.vol_high_bps as int;
    let range = c.max_spread_bps - c.tight_spread_bps;
    if lo < m1.volatility_bps < hi {
        lemma_percent_below_whole(m1.volatility_bps - lo, hi - lo);
        let r1 = volatility_ratio(c, m1);
        if m2.volatility_bps < hi {
            lemma_percent_below_whole(m2.volatility_bps - lo, hi - lo);
            let r2 = volatility_ratio(c, m2);
            vstd::arithmetic::div_mod::lemma_div_is_ordered(
                (m1.volatility_bps - lo) * 100,
                (m2.volatility_bps - lo) * 100,
                hi - lo,
            );
            assert(range * r1 <= range * r2) by (nonlinear_arith)
                requires
                    0 <= r1 <= r2,
                    range >= 0,
            ;
            vstd::arithmetic::div_mod::lemma_div_is_ordered(range * r1, range * r2, 100);
            vstd::arithmetic::div_mod::lemma_div_pos_is_pos(range * r1, 100);
        } else {
            assert(range * r1 <= range * 100) by (nonlinear_arith)
                requires
                    0 <= r1 < 100,
                    range >= 0,
            ;
            vstd::arithmetic::div_mod::lemma_div_is_ordered(range * r1, range * 100, 100);
            vstd::arithmetic::div_mod::lemma_div_pos_is_pos(range * r1, 100);
        }
    } else if lo < m2.volatility_bps < hi {
        lemma_percent_below_whole(m2.volatility_bps - lo, hi - lo);
        let r2 = volatility_ratio(c, m2);
        assert(0 <= range * r2 <= range * 100) by (nonlinear_arith)
            requires
                0 <= r2 < 100,
                range >= 0,
        ;
        vstd::arithmetic::div_mod::lemma_div_pos_is_pos(range * r2, 100);
    }
}

/// A more volatile market never gets a narrower spread, and volatility
/// changes nothing but the spread.
pub proof fn lemma_spread_monotone_in_volatility(
    c: Config,
    m1: MarketConditions,
    m2: MarketConditions,
    inventory_pct: u8,
)
    requires
        same_but_volatility(m1, m2),
        m1.volatility_bps <= m2.volatility_bps,
        calculation_defined(c, m1, inventory_pct),
        calculation_defined(c, m2, inventory_pct),
    ensures
        pricing(c, m1, inventory_pct).base_spread_bps <= pricing(
            c,
            m2,
            inventory_pct,
        ).base_spread_bps,
        pricing(c, m1, inventory_pct).fee_bps == pricing(c, m2, inventory_pct).fee_bps,
        pricing(c, m1, inventory_pct).impact_k_bps == pricing(c, m2, inventory_pct).impact_k_bps,
        pricing(c, m1, inventory_pct).max_fill == pricing(c, m2, inventory_pct).max_fill,
        pricing(c, m1, inventory_pct).max_inventory == pricing(
            c,
            m2,
            inventory_pct,
        ).max_inventory,
{
    lemma_base_spread_monotone_in_volatility(c, m1, m2);
}

/// The volume part of the base spread lies between the tight and wide
/// spreads.
proof fn lemma_volume_spread_bounds(c: Config, m: MarketConditions)
    requires
        m.volume_24h > 0,
        base_spread_defined(c, m),
    ensures
        c.tight_spread_bps <= volume_spread(c, m) <= u32::MAX,
        m.volume_24h < c.liquid_threshold ==> volume_spread(c, m) <= c.wide_spread_bps,
{
    if m.volume_24h < c.liquid_threshold {
        lemma_percent_below_whole(m.volume_24h as int, c.liquid_threshold as int);
        let range = c.wide_spread_bps - c.tight_spread_bps;
        let rest = 100 - volume_ratio(c, m);
        assert(0 <= range * rest <= range * 100) by (nonlinear_arith)
            requires
                0 <= rest <= 100,
                range >= 0,
        ;
        vstd::arithmetic::div_mod::lemma_div_pos_is_pos(range * rest, 100);
        vstd::arithmetic::div_mod::lemma_div_is_ordered(range * rest, range * 100, 100);
    }
}

/// More volatility never narrows the base spread.
pub proof fn lemma_base_spread_monotone_in_volatility(
    c: Config,
    m1: MarketConditions,
    m2: MarketConditions,
)
    requires
        same_but_volatility(m1, m2),
        m1.volatility_bps <= m2.volatility_bps,
        base_spread_defined(c, m1),
        base_spread_defined(c, m2),
    ensures
        base_spread(c, m1) <= base_spread(c, m2),
{
    if m1.volume_24h > 0 {
        lemma_volatility_spread_monotone(c, m1, m2);
        lemma_volume_spread_bounds(c, m1);
    }
}

/// More volume never widens the base spread, as long as there is volume:
/// liquid markets are quoted tight, thin ones wide.
pub proof fn lemma_base_spread_monotone_in_volume(
    c: Config,
    m1: MarketConditions,
    m2: MarketConditions,
)
    requires
        same_but_volume(m1, m2),
        0 < m1.volume_24h <= m2.volume_24h,
        base_spread_defined(c, m1),
        base_spread_defined(c, m2),
    ensures
        base_spread(c, m2) <= base_spread(c, m1),
{
    lemma_volume_spread_bounds(c, m1);
    lemma_volume_spread_bounds(c, m2);
    let t = c.liquid_threshold as int;
    if m2.volume_24h < t {
        lemma_percent_below_whole(m1.volume_24h as int, t);
        lemma_percent_below_whole(m2.volume_24h as int, t);
        vstd::arithmetic::div_mod::lemma_div_is_ordered(
            m1.volume_24h * 100,
            m2.volume_24h * 100,
            t,
        );
        let range = c.wide_spread_bps - c.tight_spread_bps;
        let r1 = 100 - volume_ratio(c, m1);
        let r2 = 100 - volume_ratio(c, m2);
        assert(range * r2 <= range * r1) by (nonlinear_arith)
            requires
                0 <= r2 <= r1,
                range >= 0,
        ;
        vstd::arithmetic::div_mod::lemma_div_is_ordered(range * r2, range * r1, 100);
    }
    if m1.volume_24h > 0 && c.vol_low_bps < m1.volatility_bps < c.vol_high_bps {
        let lo = c.vol_low_bps as int;
        let hi = c.vol_high_bps as int;
        lemma_percent_below_whole(m1.volatility_bps - lo, hi - lo);
        let range = c.max_spread_bps - c.tight_spread_bps;
        let r = volatility_ratio(c, m1);
        assert(0 <= range * r) by (nonlinear_arith)
            requires
                0 <= r,
                range >= 0,
        ;
        vstd::arithmetic::div_mod::lemma_div_pos_is_pos(range * r, 100);
    }
}

/// Among markets with volume, a deeper market never gets a wider spread
/// than a thinner one.
pub proof fn lemma_spread_monotone_in_volume(
    c: Config,
    m1: MarketConditions,
    m2: MarketConditions,
    inventory_pct: u8,
)
    requires
        same_but_volume(m1, m2),
        0 < m1.volume_24h <= m2.volume_24h,
        calculation_defined(c, m1, inventory_pct),
        calculation_defined(c, m2, inventory_pct),
    ensures
        pricing(c, m2, inventory_pct).base_spread_bps <= pricing(
            c,
            m1,
            inventory_pct,
        ).base_spread_bps,
{
    lemma_base_spread_monotone_in_volume(c, m1, m2);
}

/// The impact coefficient lies in `[50, 200]`.
proof fn lemma_impact_k_bounds(c: Config, m: MarketConditions)
    requires
        impact_k_defined(c, m),
    ensures
        50 <= impact_k(c, m) <= 200,
        0 < m.volume_24h < c.liquid_threshold ==> impact_k(c, m) == 50 + (150 * (100
            - volume_ratio(c, m))) / 100,
{
    if 0 < m.volume_24h < c.liquid_threshold {
        lemma_percent_below_whole(m.volume_24h as int, c.liquid_threshold as int);
        let x = 150 * (100 - volume_ratio(c, m));
        vstd::arithmetic::div_mod::lemma_div_is_ordered(x, 15000, 100);
        vstd::arithmetic::div_mod::lemma_div_pos_is_pos(x, 100);
    }
}

/// Thinner markets pay at least the fee and impact of deeper ones, and get
/// fills no larger.
pub proof fn lemma_liquidity_terms_monotone_in_volume(
    c: Config,
    m1: MarketConditions,
    m2: MarketConditions,
)
    requires
        same_but_volume(m1, m2),
        m1.volume_24h <= m2.volume_24h,
        impact_k_defined(c, m1),
        impact_k_defined(c, m2),
    ensures
        fee(c, m1) >= fee(c, m2),
        impact_k(c, m1) >= impact_k(c, m2),
        max_fill(m1) <= max_fill(m2),
        max_inventory(m1) == max_inventory(m2),
{
    let t = c.liquid_threshold as int;
    if 0 < m1.volume_24h < t {
        lemma_percent_below_whole(m1.volume_24h as int, t);
        vstd::arithmetic::div_mod::lemma_div_is_ordered(
            m1.volume_24h * 100,
            m2.volume_24h * 100,
            t,
        );
        if m2.volume_24h < t {
            lemma_percent_below_whole(m2.volume_24h as int, t);
            vstd::arithmetic::div_mod::lemma_div_is_ordered(
                150 * (100 - volume_ratio(c, m2)),
                150 * (100 - volume_ratio(c, m1)),
                100,
            );
        }
    }
    lemma_impact_k_bounds(c, m1);
    lemma_impact_k_bounds(c, m2);
    if m1.volume_24h > 0 && m1.oracle_price > 0 {
        let p = m1.oracle_price as int;
        vstd::arithmetic::div_mod::lemma_div_is_ordered(m1.volume_24h as int, m2.volume_24h as int, p);
        vstd::arithmetic::div_mod::lemma_div_is_ordered(
            m1.volume_24h as int / p,
            m2.volume_24h as int / p,
            100,
        );
    }
}

/// Without volume data the spread is the wide spread plus the inventory
/// premium, kept within the configured minimum and maximum.
pub proof fn lemma_no_volume_wide_spread(c: Config, m: MarketConditions, inventory_pct: u8)
    requires
        m.volume_24h == 0,
    ensures
        pricing(c, m, inventory_pct).base_spread_bps == bounded_spread(
            c,
            sat_add_u32(c.wide_spread_bps, inventory_premium(c, inventory_pct)),
        ),
        pricing(c, m, inventory_pct).impact_k_bps == 200,
        pricing(c, m, inventory_pct).max_fill == 1_000,
{
}

/// A liquid, calm market with inventory within its threshold gets the tight
/// spread (kept within the configured minimum and maximum).
pub proof fn lemma_liquid_calm_market_tight_spread(
    c: Config,
    m: MarketConditions,
    inventory_pct: u8,
)
    requires
        m.volume_24h > 0,
        m.volume_24h >= c.liquid_threshold,
        m.volatility_bps <= c.vol_low_bps,
        m.volatility_bps < c.vol_high_bps,
        inventory_pct <= c.max_inventory_pct,
    ensures
        pricing(c, m, inventory_pct).base_spread_bps == bounded_spread(c, c.tight_spread_bps),
        pricing(c, m, inventory_pct).fee_bps == 2,
        pricing(c, m, inventory_pct).impact_k_bps == 50,
{
}

/// A market with volume whose volatility reaches the high threshold gets
/// the maximum spread.
pub proof fn lemma_volatile_market_max_spread(c: Config, m: MarketConditions, inventory_pct: u8)
    requires
        m.volume_24h > 0,
        m.volatility_bps >= c.vol_high_bps,
    ensures
        pricing(c, m, inventory_pct).base_spread_bps == c.max_spread_bps,
{
}

/// The base spread of a market with volume, from its definition in the
/// configuration: a volume part (tight for liquid markets, otherwise the
/// wide-to-tight interpolation by the volume's percentage `q` of the
/// threshold) plus a volatility part (the maximum spread at or above the
/// high threshold, nothing at or below the low one, and in between the
/// `max - tight` range scaled by the volatility's percentage `r` of the way
/// from low to high), added with saturation. `q`, `w`, `r`, `e` are the
/// rounded-down quotients, given by their defining inequalities.
pub proof fn lemma_base_spread_decomposition(
    c: Config,
    m: MarketConditions,
    q: int,
    w: int,
    r: int,
    e: int,
)
    requires
        m.volume_24h > 0,
        base_spread_defined(c, m),
        m.volume_24h < c.liquid_threshold ==> q * c.liquid_threshold <= m.volume_24h * 100 < (q
            + 1) * c.liquid_threshold,
        m.volume_24h < c.liquid_threshold ==> w * 100 <= (c.wide_spread_bps - c.tight_spread_bps)
            * (100 - q) < (w + 1) * 100,
        c.vol_low_bps < m.volatility_bps < c.vol_high_bps ==> r * (c.vol_high_bps
            - c.vol_low_bps) <= (m.volatility_bps - c.vol_low_bps) * 100 < (r + 1) * (
        c.vol_high_bps - c.vol_low_bps),
        c.vol_low_bps < m.volatility_bps < c.vol_high_bps ==> e * 100 <= (c.max_spread_bps
            - c.tight_spread_bps) * r < (e + 1) * 100,
    ensures
        ({
            let volume_part = if m.volume_24h >= c.liquid_threshold {
                c.tight_spread_bps as int
            } else {
                c.tight_spread_bps + w
            };
            let volatility_part = if m.volatility_bps >= c.vol_high_bps {
                c.max_spread_bps as int
            } else if m.volatility_bps <= c.vol_low_bps {
                0
            } else {
                e
            };
            base_spread(c, m) == if volume_part + volatility_part > u32::MAX {
                u32::MAX as int
            } else {
                volume_part + volatility_part
            }
        }),
{
    let t = c.liquid_threshold as int;
    if m.volume_24h < t {
        crate::arith::lemma_floor_quotient(m.volume_24h * 100, t, q);
        lemma_percent_below_whole(m.volume_24h as int, t);
        let range = c.wide_spread_bps - c.tight_spread_bps;
        assert(range * (100 - q) >= 0) by (nonlinear_arith)
            requires
                range >= 0,
                q <= 100,
        ;
        crate::arith::lemma_floor_quotient(range * (100 - q), 100, w);
    }
    if c.vol_low_bps < m.volatility_bps < c.vol_high_bps {
        let lo = c.vol_low_bps as int;
        let hi = c.vol_high_bps as int;
        crate::arith::lemma_floor_quotient((m.volatility_bps - lo) * 100, hi - lo, r);
        lemma_percent_below_whole(m.volatility_bps - lo, hi - lo);
        let range = c.max_spread_bps - c.tight_spread_bps;
        assert(range * r >= 0) by (nonlinear_arith)
            requires
                range >= 0,
                r >= 0,
        ;
        crate::arith::lemma_floor_quotient(range * r, 100, e);
    }
    lemma_volume_spread_bounds(c, m);
    lemma_volatility_spread_monotone(c, m, m);
}

/// The trading fee tiers: 2 bps exactly for markets at or above the
/// liquidity threshold, 5 bps exactly for markets below it that reach a
/// tenth of it (rounded down), 10 bps exactly for the rest.
pub proof fn lemma_fee_tiers(c: Config, m: MarketConditions)
    ensures
        (fee(c, m) == 2) == (m.volume_24h >= c.liquid_threshold),
        (fee(c, m) == 5) == (m.volume_24h < c.liquid_threshold && c.liquid_threshold < (
        m.volume_24h + 1) * 10),
        (fee(c, m) == 10) == ((m.volume_24h + 1) * 10 <= c.liquid_threshold),
{
    let t = c.liquid_threshold as int;
    let v = m.volume_24h as int;
    vstd::arithmetic::div_mod::lemma_fundamental_div_mod(t, 10);
    vstd::arithmetic::div_mod::lemma_mod_pos_bound(t, 10);
}

/// Max fill of a market with volume and a price: 1% of the 24h volume in
/// base units (`b` base units, of which `q` hundreds), clamped to
/// `[1_000, 1_000_000]`.
pub proof fn lemma_max_fill_is_one_percent(m: MarketConditions, b: int, q: int)
    requires
        m.volume_24h > 0,
        m.oracle_price > 0,
        b * m.oracle_price <= m.volume_24h < (b + 1) * m.oracle_price,
        q * 100 <= b < (q + 1) * 100,
    ensures
        max_fill(m) == if q > 1_000_000 {
            1_000_000
        } else if q < 1_000 {
            1_000
        } else {
            q
        },
{
    crate::arith::lemma_floor_quotient(m.volume_24h as int, m.oracle_price as int, b);
    crate::arith::lemma_floor_quotient(b, 100, q);
}

/// Max inventory of a market with open interest: 10% of the open interest's
/// size (`q`, rounded down), clamped to `[1_000, 100_000]`.
pub proof fn lemma_max_inventory_is_tenth_of_open_interest(m: MarketConditions, q: int)
    requires
        m.open_interest != 0,
        q * 10 <= (if m.open_interest < 0 {
            -m.open_interest
        } else {
            m.open_interest as int
        }) < (q + 1) * 10,
    ensures
        max_inventory(m) == if q > 100_000 {
            100_000
        } else if q < 1_000 {
            1_000
        } else {
            q
        },
{
    crate::arith::lemma_floor_quotient(abs_int(m.open_interest as int), 10, q);
}

/// Long and short open interest of the same size give the same max
/// inventory.
pub proof fn lemma_max_inventory_ignores_sign(m1: MarketConditions, m2: MarketConditions)
    requires
        m2.open_interest == -m1.open_interest,
    ensures
        max_inventory(m1) == max_inventory(m2),
{
}

/// The number of trades plays no part in pricing.
pub proof fn lemma_pricing_ignores_trade_count(
    c: Config,
    m1: MarketConditions,
    m2: MarketConditions,
    inventory_pct: u8,
)
    requires
        m1.oracle_price == m2.oracle_price,
        m1.volume_24h == m2.volume_24h,
        m1.open_interest == m2.open_interest,
        m1.volatility_bps == m2.volatility_bps,
    ensures
        pricing(c, m1, inventory_pct) == pricing(c, m2, inventory_pct),
{
}

/// The impact coefficient of a market with volume below the threshold
/// falls from 200 toward 50 with the volume's percentage `q` of the
/// threshold: `50 + k` where `k` is `150 * (100 - q) / 100` rounded down.
pub proof fn lemma_impact_k_interpolation(c: Config, m: MarketConditions, q: int, k: int)
    requires
        0 < m.volume_24h < c.liquid_threshold,
        impact_k_defined(c, m),
        q * c.liquid_threshold <= m.volume_24h * 100 < (q + 1) * c.liquid_threshold,
        k * 100 <= 150 * (100 - q) < (k + 1) * 100,
    ensures
        impact_k(c, m) == 50 + k,
{
    crate::arith::lemma_floor_quotient(m.volume_24h * 100, c.liquid_threshold as int, q);
    lemma_percent_below_whole(m.volume_24h as int, c.liquid_threshold as int);
    crate::arith::lemma_floor_quotient(150 * (100 - q), 100, k);
    lemma_impact_k_bounds(c, m);
}

/// Above the inventory threshold the premium is the overage's share of the
/// room left above the threshold, times `inventory_risk_bps` (`p`, rounded
/// down), capped at `inventory_risk_bps`.
pub proof fn lemma_inventory_premium_value(c: Config, inventory_pct: u8, p: int)
    requires
        inventory_pct > c.max_inventory_pct,
        inventory_premium_defined(c, inventory_pct),
        p * (100 - c.max_inventory_pct) <= (inventory_pct - c.max_inventory_pct)
            * c.inventory_risk_bps < (p + 1) * (100 - c.max_inventory_pct),
    ensures
        inventory_premium(c, inventory_pct) == if p > c.inventory_risk_bps {
            c.inventory_risk_bps as int
        } else {
            p
        },
{
    let a = (inventory_pct - c.max_inventory_pct) * c.inventory_risk_bps;
    assert(a >= 0) by (nonlinear_arith)
        requires
            inventory_pct - c.max_inventory_pct >= 0,
            c.inventory_risk_bps >= 0,
            a == (inventory_pct - c.max_inventory_pct) * c.inventory_risk_bps,
    ;
    crate::arith::lemma_floor_quotient(a, 100 - c.max_inventory_pct, p);
    vstd::arithmetic::div_mod::lemma_div_is_ordered_by_denominator(a, 1, 100 - c.max_inventory_pct);
}

/// The quoted spread is the base spread plus the inventory premium
/// (saturating), raised to `min_spread_bps` and lowered to `max_spread_bps`;
/// where the minimum exceeds the maximum, the maximum wins.
pub proof fn lemma_spread_bounds(c: Config, m: MarketConditions, inventory_pct: u8)
    ensures
        ({
            let total = base_spread(c, m) + inventory_premium(c, inventory_pct);
            let raw = if total > u32::MAX {
                u32::MAX as int
            } else {
                total
            };
            let s = pricing(c, m, inventory_pct).base_spread_bps as int;
            &&& c.min_spread_bps <= c.max_spread_bps ==> s == if raw < c.min_spread_bps {
                c.min_spread_bps as int
            } else if raw > c.max_spread_bps {
                c.max_spread_bps as int
            } else {
                raw
            }
            &&& c.min_spread_bps > c.max_spread_bps ==> s == c.max_spread_bps
        }),
{
}

/// Spread calculator for the prop-AMM.
#[derive(Debug)]
pub struct SpreadCalculator {
    /// Configuration
    config: Config,
}

impl SpreadCalculator {
    /// The configuration in use.
    pub closed spec fn spec_config(self) -> Config {
        self.config
    }

    /// Create a new calculator with a configuration.
    pub fn new(config: Config) -> (s: Self)
        ensures
            s.spec_config() == config,
    {
        Self { config }
    }

    /// Create a calculator with the default configuration.
    pub fn default() -> (s: Self)
        ensures
            s.spec_config() == default_config(),
    {
        Self { config: Config::default() }
    }

    /// Whether `calculate` is defined on these inputs (it stays within its
    /// integer types).
    pub fn is_defined_for(&self, market: &MarketConditions, inventory_pct: u8) -> (b: bool)
        ensures
            b == calculation_defined(self.spec_config(), *market, inventory_pct),
    {
        let c = &self.config;
        let base_ok = if market.volume_24h == 0 {
            true
        } else {
            let volume_ok = if market.volume_24h < c.liquid_threshold {
                if market.volume_24h > u128::MAX / 100 || c.tight_spread_bps > c.wide_spread_bps {
                    false
                } else {
                    let ratio = market.volume_24h * 100 / c.liquid_threshold;
                    proof {
                        lemma_percent_below_whole(market.volume_24h as int, c.liquid_threshold as int);
                    }
                    let range = (c.wide_spread_bps - c.tight_spread_bps) as u128;
                    let rest = 100 - ratio;
                    assert(range * rest <= range * 100) by (nonlinear_arith)
                        requires
                            rest <= 100,
                    ;
                    let scaled = range * rest;
                    scaled <= u32::MAX as u128 && c.tight_spread_bps as u128 + scaled / 100
                        <= u32::MAX as u128
                }
            } else {
                true
            };
            let vol_ok = if c.vol_low_bps < market.volatility_bps && market.volatility_bps
                < c.vol_high_bps {
                let d = (market.volatility_bps - c.vol_low_bps) as u64;
                if d * 100 > u32::MAX as u64 || c.tight_spread_bps > c.max_spread_bps {
                    false
                } else {
                    let ratio = d * 100 / ((c.vol_high_bps - c.vol_low_bps) as u64);
                    proof {
                        lemma_percent_below_whole(d as int, (c.vol_high_bps - c.vol_low_bps) as int);
                    }
                    let range = (c.max_spread_bps - c.tight_spread_bps) as u64;
                    assert(range * ratio <= range * 100) by (nonlinear_arith)
                        requires
                            ratio < 100,
                    ;
                    range * ratio <= u32::MAX as u64
                }
            } else {
                true
            };
            volume_ok && vol_ok
        };
        let premium_ok = if inventory_pct <= c.max_inventory_pct {
            true
        } else if c.max_inventory_pct < 100 {
            let overage = (inventory_pct - c.max_inventory_pct) as u64;
            let risk = c.inventory_risk_bps as u64;
            assert(overage * risk <= 256 * risk) by (nonlinear_arith)
                requires
                    overage < 256,
            ;
            overage * risk <= u32::MAX as u64
        } else {
            false
        };
        let impact_ok = market.volume_24h == 0 || market.volume_24h >= c.liquid_threshold
            || market.volume_24h <= u128::MAX / 100;
        proof {
            if market.volume_24h != 0 && market.volume_24h < c.liquid_threshold
                && market.volume_24h <= u128::MAX / 100 {
                assert(market.volume_24h * 100 <= u128::MAX);
            }
        }
        base_ok && premium_ok && impact_ok
    }

    /// Calculate pricing parameters from market conditions and inventory.
    pub fn calculate(&self, market: &MarketConditions, inventory_pct: u8) -> (p: PricingParams)
        requires
            calculation_defined(self.spec_config(), *market, inventory_pct),
        ensures
            p == pricing(self.spec_config(), *market, inventory_pct),
            p.base_spread_bps <= self.spec_config().max_spread_bps,
            self.spec_config().min_spread_bps <= self.spec_config().max_spread_bps
                ==> self.spec_config().min_spread_bps <= p.base_spread_bps,
            p.fee_bps == 2 || p.fee_bps == 5 || p.fee_bps == 10,
            50 <= p.impact_k_bps <= 200,
            1_000 <= p.max_fill <= 1_000_000,
            1_000 <= p.max_inventory <= 100_000,
    {
        // start with the base calculation
        let base_spread = self.calculate_base_spread(market);
        // add the inventory risk premium
        let inventory_premium = self.calculate_inventory_premium(inventory_pct);
        // combine, raise to the minimum, then cap at the maximum
        let total_spread = base_spread.saturating_add(inventory_premium);
        let floored = if total_spread >= self.config.min_spread_bps {
            total_spread
        } else {
            self.config.min_spread_bps
        };
        let final_spread = if floored <= self.config.max_spread_bps {
            floored
        } else {
            self.config.max_spread_bps
        };
        // impact k from market liquidity
        let impact_k = self.calculate_impact_k(market);
        // max fill from volume
        let max_fill = self.calculate_max_fill(market);
        // max inventory from open interest
        let max_inventory = self.calculate_max_inventory(market);
        PricingParams {
            base_spread_bps: final_spread,
            fee_bps: self.calculate_fee(market),
            impact_k_bps: impact_k,
            max_fill,
            max_inventory,
        }
    }

    /// Calculate the base spread from market conditions.
    fn calculate_base_spread(&self, market: &MarketConditions) -> (s: u32)
        requires
            base_spread_defined(self.config, *market),
        ensures
            s == base_spread(self.config, *market),
    {
        let c = &self.config;
        // without volume data, use the wide spread
        if market.volume_24h == 0 {
            return c.wide_spread_bps;
        }
        // volume-based spread
        let volume_spread = if market.volume_24h >= c.liquid_threshold {
            c.tight_spread_bps
        } else {
            // linear interpolation from wide (no volume) to tight (threshold)
            let ratio = market.volume_24h * 100 / c.liquid_threshold;
            let range = c.wide_spread_bps - c.tight_spread_bps;
            proof {
                lemma_percent_below_whole(market.volume_24h as int, c.liquid_threshold as int);
            }
            c.tight_spread_bps + ((range * (100 - ratio as u32)) / 100)
        };
        // volatility adjustment
        let vol_spread = if market.volatility_bps >= c.vol_high_bps {
            // high volatility: use the max spread
            c.max_spread_bps
        } else if market.volatility_bps <= c.vol_low_bps {
            // low volatility: no extra spread
            0
        } else {
            // interpolate
            let ratio = (market.volatility_bps - c.vol_low_bps) * 100 / (c.vol_high_bps
                - c.vol_low_bps);
            let extra = ((c.max_spread_bps - c.tight_spread_bps) * ratio as u32) / 100;
            extra
        };
        volume_spread.saturating_add(vol_spread)
    }

    /// Calculate the inventory risk premium.
    fn calculate_inventory_premium(&self, inventory_pct: u8) -> (p: u32)
        requires
            inventory_premium_defined(self.config, inventory_pct),
        ensures
            p == inventory_premium(self.config, inventory_pct),
    {
        if inventory_pct <= self.config.max_inventory_pct {
            return 0;
        }
        // how far over the threshold
        let overage = inventory_pct as u32 - self.config.max_inventory_pct as u32;
        let max_overage = 100 - self.config.max_inventory_pct as u32;
        // scale from 0 to inventory_risk_bps
        let premium = (overage as u32 * self.config.inventory_risk_bps) / max_overage;
        if premium <= self.config.inventory_risk_bps {
            premium
        } else {
            self.config.inventory_risk_bps
        }
    }

    /// Calculate the impact coefficient (higher for thin markets).
    fn calculate_impact_k(&self, market: &MarketConditions) -> (k: u32)
        requires
            impact_k_defined(self.config, *market),
        ensures
            k == impact_k(self.config, *market),
            50 <= k <= 200,
    {
        if market.volume_24h == 0 {
            return 200;  // high impact without volume
        }
        if market.volume_24h >= self.config.liquid_threshold {
            return 50;  // low impact for liquid markets
        }
        // interpolate
        let ratio = market.volume_24h * 100 / self.config.liquid_threshold;
        proof {
            lemma_percent_below_whole(
                market.volume_24h as int,
                self.config.liquid_threshold as int,
            );
        }
        50 + ((150 * (100 - ratio as u32)) / 100)
    }

    /// Calculate the max fill size.
    fn calculate_max_fill(&self, market: &MarketConditions) -> (f: Quantity)
        ensures
            f == max_fill(*market),
            1_000 <= f <= 1_000_000,
    {
        if market.volume_24h == 0 {
            return 1_000;  // small fills for thin markets
        }
        // max fill = 1% of 24h volume (in base units)
        if market.oracle_price == 0 {
            return 10_000;
        }
        let base_volume = market.volume_24h / market.oracle_price as u128;
        let max_fill = (base_volume / 100) as Quantity;
        // cap at a reasonable maximum
        if max_fill > 1_000_000 {
            1_000_000
        } else if max_fill < 1_000 {
            1_000
        } else {
            max_fill
        }
    }

    /// Calculate the max inventory.
    fn calculate_max_inventory(&self, market: &MarketConditions) -> (i: Quantity)
        ensures
            i == max_inventory(*market),
            1_000 <= i <= 100_000,
    {
        if market.open_interest == 0 {
            return 10_000;
        }
        // max inventory = 10% of open interest
        let oi = market.open_interest;
        let abs_oi: u128 = if oi < 0 {
            ((-(oi + 1)) as u128) + 1
        } else {
            oi as u128
        };
        let max_inv = (abs_oi / 10) as Quantity;
        // cap
        if max_inv > 100_000 {
            100_000
        } else if max_inv < 1_000 {
            1_000
        } else {
            max_inv
        }
    }

    /// Calculate the trading fee.
    fn calculate_fee(&self, market: &MarketConditions) -> (f: u32)
        ensures
            f == fee(self.config, *market),
    {
        if market.volume_24h >= self.config.liquid_threshold {
            2  // 0.02% for liquid markets
        } else if market.volume_24h >= self.config.liquid_threshold / 10 {
            5  // 0.05% for medium
        } else {
            10  // 0.1% for thin
        }
    }

    /// Replace the configuration.
    pub fn set_config(&mut self, config: Config)
        ensures
            final(self).spec_config() == config,
    {
        self.config = config;
    }

    /// The current configuration.
    pub fn config(&self) -> (c: &Config)
        ensures
            *c == self.spec_config(),
    {
        &self.config
    }
}

impl Clone for SpreadCalculator {
    fn clone(&self) -> (s: Self)
        ensures
            s.spec_config() == self.spec_config(),
    {
        Self { config: self.config }
    }
}

impl Default for SpreadCalculator {
    fn default() -> (s: Self)
        ensures
            s.spec_config() == default_config(),
    {
        Self::default()
    }
}

} // verus!
