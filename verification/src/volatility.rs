//! Volatility estimator.
//!
//! A rolling window of the most recent prices, from which a range-based
//! volatility (in basis points) is computed for dynamic spread adjustment.

use vstd::prelude::*;

use crate::types::Price;

verus! {

/// Number of price observations to keep.
pub const WINDOW_SIZE: usize = 24;

/// Sum of a sequence of prices.
pub open spec fn seq_sum(s: Seq<Price>) -> int
    decreases s.len(),
{
    if s.len() == 0 {
        0
    } else {
        seq_sum(s.drop_last()) + s.last()
    }
}

/// Smallest price of a sequence (`u64::MAX` for the empty one).
pub open spec fn seq_min(s: Seq<Price>) -> Price
    decreases s.len(),
{
    if s.len() == 0 {
        u64::MAX
    } else {
        let m = seq_min(s.drop_last());
        if s.last() < m {
            s.last()
        } else {
            m
        }
    }
}

/// Largest price of a sequence (`0` for the empty one).
pub open spec fn seq_max(s: Seq<Price>) -> Price
    decreases s.len(),
{
    if s.len() == 0 {
        0
    } else {
        let m = seq_max(s.drop_last());
        if s.last() > m {
            s.last()
        } else {
            m
        }
    }
}

/// Range volatility of a price history: `(max - min) * 10000 / mean`,
/// capped at 10000 bps, and 0 when there are fewer than two prices.
pub open spec fn range_volatility_bps(h: Seq<Price>) -> u32 {
    if h.len() < 2 {
        0
    } else if seq_min(h) == 0 {
        0
    } else {
        let mean = seq_sum(h) / (h.len() as int);
        if mean == 0 {
            0
        } else {
            let v = (seq_max(h) - seq_min(h)) * 10000 / mean;
            if v > 10000 {
                10000
            } else {
                v as u32
            }
        }
    }
}

/// The history after observing `price`: a zero price is ignored, and once
/// the window is full the oldest observation makes room for the new one.
pub open spec fn push_observation(h: Seq<Price>, price: Price) -> Seq<Price> {
    if price == 0 {
        h
    } else if h.len() < WINDOW_SIZE {
        h.push(price)
    } else {
        h.drop_first().push(price)
    }
}

/// Sum, minimum and maximum of a concatenation.
proof fn lemma_seq_sum_concat(a: Seq<Price>, b: Seq<Price>)
    ensures
        seq_sum(a + b) == seq_sum(a) + seq_sum(b),
        seq_min(a + b) == (if seq_min(b) < seq_min(a) { seq_min(b) } else { seq_min(a) }),
        seq_max(a + b) == (if seq_max(b) > seq_max(a) { seq_max(b) } else { seq_max(a) }),
    decreases b.len(),
{
    if b.len() == 0 {
        assert(a + b =~= a);
    } else {
        lemma_seq_sum_concat(a, b.drop_last());
        assert((a + b).drop_last() =~= a + b.drop_last());
    }
}

/// Sum of a sequence of prices is bounded by its length times `u64::MAX`.
proof fn lemma_seq_sum_bounds(s: Seq<Price>)
    ensures
        0 <= seq_sum(s) <= s.len() * 0xFFFF_FFFF_FFFF_FFFFint,
        s.len() > 0 ==> seq_min(s) <= seq_max(s),
        forall|i: int| 0 <= i < s.len() ==> seq_min(s) <= #[trigger] s[i] <= seq_max(s),
    decreases s.len(),
{
    if s.len() > 0 {
        lemma_seq_sum_bounds(s.drop_last());
        assert forall|i: int| 0 <= i < s.len() implies seq_min(s) <= #[trigger] s[i] <= seq_max(
            s,
        ) by {
            if i < s.len() - 1 {
                assert(s[i] == s.drop_last()[i]);
            }
        }
    }
}

/// Rust's `/` on signed integers: the quotient rounded toward zero.
pub open spec fn div_toward_zero(a: int, b: int) -> int {
    if a >= 0 {
        a / b
    } else {
        -((-a) / b)
    }
}

/// Approximate log return from `prev` to `curr` in bps,
/// `curr * 10000 / prev - 10000`, wrapped to `i64`.
pub open spec fn log_return_bps(prev: Price, curr: Price) -> i64 {
    (((curr as int) * 10000) / (prev as int) - 10000) as i64
}

/// The log returns between consecutive prices of a sequence.
pub open spec fn log_returns(s: Seq<Price>) -> Seq<i64> {
    if s.len() == 0 {
        Seq::empty()
    } else {
        Seq::new((s.len() - 1) as nat, |i: int| log_return_bps(s[i], s[i + 1]))
    }
}

/// Sum of a sequence of returns.
pub open spec fn sum_i64(r: Seq<i64>) -> int
    decreases r.len(),
{
    if r.len() == 0 {
        0
    } else {
        sum_i64(r.drop_last()) + r.last()
    }
}

/// Mean of the returns, rounded toward zero.
pub open spec fn mean_return(r: Seq<i64>) -> int {
    div_toward_zero(sum_i64(r), r.len() as int)
}

/// Sum of the squared deviations of the returns from `mean`.
pub open spec fn sq_dev_sum(r: Seq<i64>, mean: int) -> int
    decreases r.len(),
{
    if r.len() == 0 {
        0
    } else {
        sq_dev_sum(r.drop_last(), mean) + (r.last() - mean) * (r.last() - mean)
    }
}

/// The variance computation stays within its integer types: every running
/// sum of returns fits `i64`, every deviation from the mean fits `i64`, and
/// every running sum of squared deviations fits `i128`.
pub open spec fn returns_in_range(r: Seq<i64>) -> bool {
    &&& forall|k: int| 0 <= k <= r.len() ==> i64::MIN <= #[trigger] sum_i64(r.take(k)) <= i64::MAX
    &&& forall|i: int| 0 <= i < r.len() ==> i64::MIN <= #[trigger] r[i] - mean_return(r) <= i64::MAX
    &&& forall|k: int|
        0 <= k <= r.len() ==> #[trigger] sq_dev_sum(r.take(k), mean_return(r)) <= i128::MAX
}

/// Sample variance of the returns (rounded down).
pub open spec fn returns_variance(r: Seq<i64>) -> int {
    sq_dev_sum(r, mean_return(r)) / (r.len() - 1)
}

/// Volatility in bps from a standard deviation of returns: `std_dev * 100`,
/// capped at 10000.
pub open spec fn std_dev_volatility_bps(std_dev: u64) -> u32 {
    if std_dev * 100 > 10000 {
        10000
    } else {
        (std_dev * 100) as u32
    }
}

/// Squared deviations are never negative.
proof fn lemma_sq_dev_sum_nonneg(r: Seq<i64>, mean: int)
    ensures
        sq_dev_sum(r, mean) >= 0,
    decreases r.len(),
{
    if r.len() > 0 {
        lemma_sq_dev_sum_nonneg(r.drop_last(), mean);
        let d = r.last() - mean;
        assert(d * d >= 0) by (nonlinear_arith);
    }
}

/// Volatility in bps from a standard deviation of returns.
pub fn volatility_bps_from_std_dev(std_dev: u64) -> (v: u32)
    ensures
        v == std_dev_volatility_bps(std_dev),
        v <= 10000,
{
    // simplified scaling, capped at 10000 bps before narrowing to 32 bits
    if std_dev > 100 {
        10_000
    } else {
        (std_dev * 100) as u32
    }
}

/// Bound on the size of a return when every price is at most `2^40`:
/// `2^40 * 10000 < 2^54`.
pub open spec fn return_bound() -> int {
    0x40_0000_0000_0000
}

/// A running sum of bounded returns is bounded by the count times the bound.
proof fn lemma_sum_i64_bound(r: Seq<i64>)
    requires
        forall|i: int| 0 <= i < r.len() ==> -return_bound() <= #[trigger] r[i] <= return_bound(),
    ensures
        -(r.len() * return_bound()) <= sum_i64(r) <= r.len() * return_bound(),
    decreases r.len(),
{
    if r.len() > 0 {
        assert(forall|i: int| 0 <= i < r.len() - 1 ==> r.drop_last()[i] == r[i]);
        lemma_sum_i64_bound(r.drop_last());
        assert(r.last() == r[r.len() - 1]);
    }
}

/// A sum of squared deviations, each at most twice the bound, is bounded
/// by the count times the square of twice the bound.
proof fn lemma_sq_dev_sum_bound(r: Seq<i64>, mean: int)
    requires
        forall|i: int|
            0 <= i < r.len() ==> -2 * return_bound() <= #[trigger] r[i] - mean <= 2
                * return_bound(),
    ensures
        0 <= sq_dev_sum(r, mean) <= r.len() * 0x1_0000_0000_0000_0000_0000_0000_0000,
    decreases r.len(),
{
    if r.len() > 0 {
        assert(forall|i: int| 0 <= i < r.len() - 1 ==> r.drop_last()[i] == r[i]);
        lemma_sq_dev_sum_bound(r.drop_last(), mean);
        assert(r.last() == r[r.len() - 1]);
        let d = r.last() - mean;
        assert(0 <= d * d <= 0x1_0000_0000_0000_0000_0000_0000_0000) by (nonlinear_arith)
            requires
                -0x80_0000_0000_0000 <= d <= 0x80_0000_0000_0000,
        ;
    }
}

/// With at least two prices in the window, all positive and at most
/// `2^40`, the returns-based variance stays within its integer types.
pub proof fn lemma_bounded_prices_returns_in_range(h: Seq<Price>)
    requires
        2 <= h.len() <= WINDOW_SIZE,
        forall|i: int| 0 <= i < h.len() ==> 0 < #[trigger] h[i] <= 0x100_0000_0000,
    ensures
        returns_in_range(log_returns(h)),
{
    let r = log_returns(h);
    let n = r.len() as int;
    let b = return_bound();
    assert forall|i: int| 0 <= i < r.len() implies -b <= #[trigger] r[i] <= b by {
        let prev = h[i] as int;
        let curr = h[i + 1] as int;
        let x = curr * 10000;
        vstd::arithmetic::div_mod::lemma_div_is_ordered_by_denominator(x, 1, prev);
        vstd::arithmetic::div_mod::lemma_div_pos_is_pos(x, prev);
        assert(x / 1 == x);
        let ratio = x / prev;
        assert(-10000 <= ratio - 10000 < b);
        assert(r[i] == (ratio - 10000) as i64);
    }
    assert forall|k: int| 0 <= k <= r.len() implies i64::MIN <= #[trigger] sum_i64(r.take(k))
        <= i64::MAX by {
        lemma_sum_i64_bound(r.take(k));
    }
    lemma_sum_i64_bound(r);
    assert(r.take(n) =~= r);
    let total = sum_i64(r);
    let m = mean_return(r);
    vstd::arithmetic::div_mod::lemma_div_multiples_vanish(b, n);
    if total >= 0 {
        vstd::arithmetic::div_mod::lemma_div_is_ordered(total, n * b, n);
        vstd::arithmetic::div_mod::lemma_div_pos_is_pos(total, n);
    } else {
        vstd::arithmetic::div_mod::lemma_div_is_ordered(-total, n * b, n);
        vstd::arithmetic::div_mod::lemma_div_pos_is_pos(-total, n);
    }
    assert(-b <= m <= b);
    assert forall|k: int| 0 <= k <= r.len() implies #[trigger] sq_dev_sum(r.take(k), m)
        <= i128::MAX by {
        lemma_sq_dev_sum_bound(r.take(k), m);
    }
}

/// When every price is positive, so is the minimum, and the sum is at least
/// the count.
proof fn lemma_seq_positive(s: Seq<Price>)
    requires
        forall|i: int| 0 <= i < s.len() ==> 1 <= #[trigger] s[i],
    ensures
        s.len() > 0 ==> 1 <= seq_min(s),
        seq_sum(s) >= s.len(),
    decreases s.len(),
{
    if s.len() > 0 {
        assert(forall|i: int| 0 <= i < s.len() - 1 ==> s.drop_last()[i] == s[i]);
        lemma_seq_positive(s.drop_last());
        assert(s.last() == s[s.len() - 1]);
        assert(1 <= s.last());
        if s.len() == 1 {
            assert(s.drop_last().len() == 0);
            assert(seq_min(s.drop_last()) == u64::MAX);
        }
    }
}

/// The range volatility of at least two positive prices is the range
/// `max - min` times 10000 divided by the arithmetic mean of the prices,
/// capped at 10000. `mean` and `v` are the rounded-down quotients, given by
/// their defining inequalities.
pub proof fn lemma_range_volatility_is_range_over_mean(h: Seq<Price>, mean: int, v: int)
    requires
        h.len() >= 2,
        forall|i: int| 0 <= i < h.len() ==> #[trigger] h[i] > 0,
        mean * h.len() <= seq_sum(h) < (mean + 1) * h.len(),
        v * mean <= (seq_max(h) - seq_min(h)) * 10000 < (v + 1) * mean,
    ensures
        mean >= 1,
        range_volatility_bps(h) == if v > 10000 {
            10000
        } else {
            v
        },
{
    lemma_seq_positive(h);
    lemma_seq_sum_bounds(h);
    crate::arith::lemma_floor_quotient(seq_sum(h), h.len() as int, mean);
    if mean < 1 {
        assert(seq_sum(h) < h.len()) by (nonlinear_arith)
            requires
                seq_sum(h) < (mean + 1) * h.len(),
                mean + 1 <= 1,
                h.len() >= 0,
        ;
    }
    crate::arith::lemma_floor_quotient((seq_max(h) - seq_min(h)) * 10000, mean, v);
}

/// The log returns are taken between each price and the next, in order,
/// one fewer than the prices; each is `curr * 10000 / prev - 10000` with
/// the ratio rounded down (`ratio`), when the prices are at most `2^40`.
pub proof fn lemma_log_return_value(h: Seq<Price>, i: int, ratio: int)
    requires
        0 <= i < h.len() - 1,
        0 < h[i] <= 0x100_0000_0000,
        0 < h[i + 1] <= 0x100_0000_0000,
        ratio * h[i] <= h[i + 1] * 10000 < (ratio + 1) * h[i],
    ensures
        log_returns(h).len() == h.len() - 1,
        log_returns(h)[i] == ratio - 10000,
{
    crate::arith::lemma_floor_quotient(h[i + 1] * 10000, h[i] as int, ratio);
    vstd::arithmetic::div_mod::lemma_div_is_ordered_by_denominator(h[i + 1] * 10000, 1, h[i] as int);
}

/// The variance is the sum of squared deviations from the mean divided by
/// one less than the number of returns (rounded down, `v`), and the mean is
/// the sum of the returns divided by their number, rounded toward zero
/// (`m` is its size).
pub proof fn lemma_returns_variance_value(r: Seq<i64>, m: int, v: int)
    requires
        r.len() >= 2,
        m * r.len() <= (if sum_i64(r) >= 0 {
            sum_i64(r)
        } else {
            -sum_i64(r)
        }) < (m + 1) * r.len(),
        v * (r.len() - 1) <= sq_dev_sum(r, mean_return(r)) < (v + 1) * (r.len() - 1),
    ensures
        mean_return(r) == if sum_i64(r) >= 0 {
            m
        } else {
            -m
        },
        returns_variance(r) == v,
        v >= 0,
{
    let t = sum_i64(r);
    if t >= 0 {
        crate::arith::lemma_floor_quotient(t, r.len() as int, m);
    } else {
        crate::arith::lemma_floor_quotient(-t, r.len() as int, m);
    }
    lemma_sq_dev_sum_nonneg(r, mean_return(r));
    crate::arith::lemma_floor_quotient(sq_dev_sum(r, mean_return(r)), r.len() - 1, v);
}

/// Steady prices have no returns to speak of: every return is 0, and so is
/// their variance.
pub proof fn lemma_steady_prices_no_return_variance(h: Seq<Price>, price: Price)
    requires
        h.len() >= 3,
        price > 0,
        forall|i: int| 0 <= i < h.len() ==> h[i] == price,
    ensures
        forall|i: int| 0 <= i < log_returns(h).len() ==> #[trigger] log_returns(h)[i] == 0,
        returns_variance(log_returns(h)) == 0,
{
    let r = log_returns(h);
    assert forall|i: int| 0 <= i < r.len() implies #[trigger] r[i] == 0 by {
        assert(h[i] == price && h[i + 1] == price);
        vstd::arithmetic::div_mod::lemma_div_multiples_vanish(10000, price as int);
        assert((price as int) * 10000 == (price as int) * 10000int);
        assert(((price as int) * 10000) / (price as int) == 10000);
    }
    lemma_zero_returns(r);
    vstd::arithmetic::div_mod::lemma_div_of0(r.len() - 1);
}

/// Sums over returns that are all 0.
proof fn lemma_zero_returns(r: Seq<i64>)
    requires
        forall|i: int| 0 <= i < r.len() ==> #[trigger] r[i] == 0,
    ensures
        sum_i64(r) == 0,
        sq_dev_sum(r, 0) == 0,
        r.len() > 0 ==> mean_return(r) == 0,
    decreases r.len(),
{
    if r.len() > 0 {
        assert(forall|i: int| 0 <= i < r.len() - 1 ==> r.drop_last()[i] == r[i]);
        lemma_zero_returns(r.drop_last());
        assert(r.last() == r[r.len() - 1]);
        vstd::arithmetic::div_mod::lemma_div_of0(r.len() as int);
    }
}

/// The standard deviation scales to basis points as `std_dev * 100`, up to
/// the cap of 10000.
pub proof fn lemma_std_dev_scaling(std_dev: u64)
    ensures
        std_dev <= 100 ==> std_dev_volatility_bps(std_dev) == std_dev * 100,
        std_dev >= 100 ==> std_dev_volatility_bps(std_dev) == 10000,
{
}

/// The nonzero prices of a sequence, in order.
pub open spec fn nonzero_prices(prices: Seq<Price>) -> Seq<Price>
    decreases prices.len(),
{
    if prices.len() == 0 {
        Seq::empty()
    } else if prices.last() == 0 {
        nonzero_prices(prices.drop_last())
    } else {
        nonzero_prices(prices.drop_last()).push(prices.last())
    }
}

/// The last `n` elements of a sequence (all of it when shorter).
pub open spec fn last_n(s: Seq<Price>, n: nat) -> Seq<Price> {
    if s.len() <= n {
        s
    } else {
        s.skip(s.len() - n)
    }
}

/// The history after observing `prices` one by one, starting empty.
pub open spec fn history_after(prices: Seq<Price>) -> Seq<Price>
    decreases prices.len(),
{
    if prices.len() == 0 {
        Seq::empty()
    } else {
        push_observation(history_after(prices.drop_last()), prices.last())
    }
}

/// The window holds exactly the most recent `WINDOW_SIZE` nonzero prices
/// observed, oldest first.
pub proof fn lemma_window_keeps_latest(prices: Seq<Price>)
    ensures
        history_after(prices) == last_n(nonzero_prices(prices), WINDOW_SIZE as nat),
    decreases prices.len(),
{
    if prices.len() > 0 {
        let pre = prices.drop_last();
        let p = prices.last();
        lemma_window_keeps_latest(pre);
        let nz = nonzero_prices(pre);
        let w = WINDOW_SIZE as nat;
        if p != 0 {
            let l = last_n(nz, w);
            if nz.len() < w {
                assert(history_after(prices) =~= last_n(nz.push(p), w));
            } else {
                assert(l.len() == w);
                assert(history_after(prices) =~= last_n(nz.push(p), w));
            }
        }
    }
}

/// The most recent nonzero observation is the newest entry of the window.
pub proof fn lemma_latest_observation(h: Seq<Price>, price: Price)
    requires
        price > 0,
    ensures
        push_observation(h, price).last() == price,
        push_observation(h, price).len() > 0,
{
}

/// A zero price leaves the window as it was.
pub proof fn lemma_zero_price_ignored(h: Seq<Price>)
    ensures
        push_observation(h, 0) == h,
{
}

/// A window that is at most full stays at most full.
pub proof fn lemma_window_bounded(h: Seq<Price>, price: Price)
    requires
        h.len() <= WINDOW_SIZE,
    ensures
        push_observation(h, price).len() <= WINDOW_SIZE,
{
}

/// Range volatility never exceeds 10000 bps and is 0 with fewer than two
/// prices.
pub proof fn lemma_range_volatility_bounds(h: Seq<Price>)
    ensures
        range_volatility_bps(h) <= 10000,
        h.len() < 2 ==> range_volatility_bps(h) == 0,
{
    lemma_seq_sum_bounds(h);
    if h.len() >= 2 && seq_min(h) > 0 {
        let mean = seq_sum(h) / (h.len() as int);
        if mean > 0 {
            vstd::arithmetic::div_mod::lemma_div_pos_is_pos(
                (seq_max(h) - seq_min(h)) * 10000,
                mean,
            );
        }
    }
}

/// When every price in the window is the same, the volatility is zero.
pub proof fn lemma_steady_prices_no_volatility(h: Seq<Price>, price: Price)
    requires
        price > 0,
        forall|i: int| 0 <= i < h.len() ==> h[i] == price,
    ensures
        range_volatility_bps(h) == 0,
{
    lemma_steady_min_max(h, price);
    if h.len() >= 2 {
        let mean = seq_sum(h) / (h.len() as int);
        if mean != 0 {
            vstd::arithmetic::div_mod::lemma_div_of0(mean);
            assert((seq_max(h) - seq_min(h)) * 10000 == 0);
        }
    }
}

/// Minimum and maximum of a constant nonempty sequence.
proof fn lemma_steady_min_max(h: Seq<Price>, price: Price)
    requires
        forall|i: int| 0 <= i < h.len() ==> h[i] == price,
    ensures
        h.len() > 0 ==> seq_min(h) == price && seq_max(h) == price,
    decreases h.len(),
{
    if h.len() > 0 {
        assert(forall|i: int| 0 <= i < h.len() - 1 ==> h.drop_last()[i] == h[i]);
        lemma_steady_min_max(h.drop_last(), price);
        assert(h[h.len() - 1] == price);
        assert(h.last() == price);
        if h.len() == 1 {
            assert(h.drop_last().len() == 0);
            assert(seq_min(h.drop_last()) == u64::MAX);
            assert(seq_max(h.drop_last()) == 0);
        }
    }
}

/// Simple volatility estimator using a rolling window of prices.
#[derive(Debug)]
pub struct VolatilityEstimator {
    /// Price slots (circular once full)
    prices: [Price; WINDOW_SIZE],
    /// Current count of valid prices
    count: usize,
    /// Slot of the oldest price once the window is full
    head: usize,
    /// Last recorded price
    last_price: Price,
    /// Whether there is enough data
    ready: bool,
}

impl VolatilityEstimator {
    /// The recorded prices in slot order.
    spec fn slots(self) -> Seq<Price> {
        self.prices@.take(self.count as int)
    }

    /// The slot that holds the oldest price once the window is full.
    spec fn oldest_slot(self) -> int {
        self.head as int
    }

    /// The recorded prices in the order they arrived, oldest first.
    pub closed spec fn history(self) -> Seq<Price> {
        if self.count < WINDOW_SIZE {
            self.slots()
        } else {
            self.prices@.skip(self.head as int) + self.prices@.take(self.head as int)
        }
    }

    /// The estimator's internal invariant.
    #[verifier::type_invariant]
    pub closed spec fn well_formed(self) -> bool {
        &&& self.count <= WINDOW_SIZE
        &&& self.head < WINDOW_SIZE
        &&& self.count < WINDOW_SIZE ==> self.head == 0
        &&& self.ready == (self.count >= 2)
        &&& forall|i: int| 0 <= i < self.count ==> self.prices[i] > 0
        &&& self.last_price == (if self.count == 0 {
            0
        } else {
            self.history().last()
        })
    }

    /// Slot order is a rotation of arrival order by the oldest slot, every
    /// recorded price is positive, and the window never overflows.
    proof fn lemma_slots_and_history(self)
        requires
            self.well_formed(),
        ensures
            self.history().len() == self.slots().len(),
            self.slots().len() <= WINDOW_SIZE,
            0 <= self.oldest_slot() < WINDOW_SIZE,
            self.slots().len() < WINDOW_SIZE ==> self.oldest_slot() == 0 && self.history()
                == self.slots(),
            self.slots().len() == WINDOW_SIZE ==> self.history() == self.slots().skip(
                self.oldest_slot(),
            ) + self.slots().take(self.oldest_slot()),
            forall|i: int| 0 <= i < self.slots().len() ==> #[trigger] self.slots()[i] > 0,
            seq_sum(self.slots()) == seq_sum(self.history()),
            seq_min(self.slots()) == seq_min(self.history()),
            seq_max(self.slots()) == seq_max(self.history()),
    {
        if self.count == WINDOW_SIZE {
            let p = self.prices@;
            assert(self.slots() =~= p);
            assert(p =~= p.take(self.head as int) + p.skip(self.head as int));
            lemma_seq_sum_concat(p.take(self.head as int), p.skip(self.head as int));
            lemma_seq_sum_concat(p.skip(self.head as int), p.take(self.head as int));
        }
    }

    /// Where each price of the history sits among the slots; all are
    /// positive.
    proof fn lemma_history_index(self)
        requires
            self.well_formed(),
        ensures
            forall|k: int|
                0 <= k < self.history().len() ==> #[trigger] self.history()[k] == self.prices@[(
                self.oldest_slot() + k) % (WINDOW_SIZE as int)],
            forall|k: int| 0 <= k < self.history().len() ==> #[trigger] self.history()[k] > 0,
    {
        self.lemma_slots_and_history();
    }

    /// Create a new volatility estimator.
    pub fn new() -> (e: Self)
        ensures
            e.history() == Seq::<Price>::empty(),
    {
        let e = Self { prices: [0;WINDOW_SIZE], count: 0, head: 0, last_price: 0, ready: false };
        assert(e.slots() =~= Seq::<Price>::empty());
        e
    }

    /// Add a new price observation. A zero price is ignored.
    pub fn update(&mut self, price: Price)
        ensures
            final(self).history() == push_observation(old(self).history(), price),
            final(self).history().len() <= WINDOW_SIZE,
    {
        proof {
            use_type_invariant(&*self);
            self.lemma_slots_and_history();
        }
        if price == 0 {
            return ;
        }
        let ghost old_p = self.prices@;
        let ghost old_h = self.history();
        let mut prices = self.prices;
        let mut count = self.count;
        let mut head = self.head;
        if count < WINDOW_SIZE {
            prices[count] = price;
            count += 1;
        } else {
            // circular buffer overwrite
            prices[head] = price;
            head = (head + 1) % WINDOW_SIZE;
        }
        // at least two prices are needed to compute volatility
        let ready = if count >= 2 {
            true
        } else {
            self.ready
        };
        let ghost next = Self { prices, count, head, last_price: price, ready };
        proof {
            let p = prices@;
            if self.count < WINDOW_SIZE {
                assert(next.slots() =~= self.slots().push(price));
                if count == WINDOW_SIZE {
                    assert(p.skip(0) + p.take(0) =~= p);
                    assert(p.take(count as int) =~= p);
                }
                assert(next.history() =~= old_h.push(price));
            } else {
                let h = self.head as int;
                assert(p.take(WINDOW_SIZE as int) =~= p);
                assert(old_p.take(WINDOW_SIZE as int) =~= old_p);
                assert(next.slots() =~= self.slots().update(h, price));
                assert(next.history() =~= old_h.drop_first().push(price));
            }
        }
        *self = Self { prices, count, head, last_price: price, ready };
    }

    /// Get the current price: the most recent observation, or 0 when none.
    pub fn current_price(&self) -> (p: Price)
        ensures
            p == (if self.history().len() == 0 {
                0
            } else {
                self.history().last()
            }),
    {
        proof {
            use_type_invariant(self);
            self.lemma_slots_and_history();
        }
        self.last_price
    }

    /// Check whether there is enough data (at least two observations).
    pub fn is_ready(&self) -> (r: bool)
        ensures
            r == (self.history().len() >= 2),
    {
        proof {
            use_type_invariant(self);
            self.lemma_slots_and_history();
        }
        self.ready
    }

    /// Volatility as basis points: `(max - min) / mean * 10000` over the
    /// window, capped at 10000; 0 when there is not enough data.
    pub fn volatility_bps(&self) -> (v: u32)
        ensures
            v == range_volatility_bps(self.history()),
            v <= 10000,
    {
        proof {
            use_type_invariant(self);
            self.lemma_slots_and_history();
        }
        if !self.ready || self.count < 2 {
            return 0;
        }
        // find min, max and sum over the current window
        let window_end = if self.count < WINDOW_SIZE {
            self.count
        } else {
            WINDOW_SIZE
        };
        let ghost s = self.slots();
        let mut min_price = Price::MAX;
        let mut max_price: Price = 0;
        let mut sum: u128 = 0;
        let mut i: usize = 0;
        while i < window_end
            invariant
                window_end == self.count,
                s == self.slots(),
                s.len() == window_end,
                window_end <= WINDOW_SIZE,
                i <= window_end,
                min_price == seq_min(s.take(i as int)),
                max_price == seq_max(s.take(i as int)),
                sum == seq_sum(s.take(i as int)),
                sum <= i * 0xFFFF_FFFF_FFFF_FFFFint,
            decreases window_end - i,
        {
            let price = self.prices[i];
            assert(s.take(i + 1).drop_last() =~= s.take(i as int));
            if price < min_price {
                min_price = price;
            }
            if price > max_price {
                max_price = price;
            }
            sum += price as u128;
            i += 1;
        }
        assert(s.take(window_end as int) =~= s);
        proof {
            lemma_seq_sum_bounds(s);
        }
        if min_price == 0 {
            return 0;
        }
        let mean = sum / (window_end as u128);
        if mean == 0 {
            return 0;
        }
        // volatility = (max - min) / mean * 10000 (bps)
        let range = (max_price as u128) - (min_price as u128);
        let vol_bps = (range * 10_000) / mean;
        // cap at a reasonable maximum (10000 bps = 100%)
        if vol_bps > 10_000 {
            10_000
        } else {
            vol_bps as u32
        }
    }

    /// The sample variance of the log returns between consecutive prices,
    /// in the order they arrived, from which the returns-based volatility is
    /// derived: `Ok(None)` with fewer than three prices (the range
    /// volatility applies then), and `Err(Error::Overflow)` when the
    /// computation leaves its integer types (never when every price is at
    /// most `2^40`).
    pub fn log_return_variance(&self) -> (r: core::result::Result<Option<i128>, crate::types::Error>)
        ensures
            self.history().len() < 3 ==> r == Ok::<Option<i128>, crate::types::Error>(None),
            self.history().len() >= 3 ==> r == (if returns_in_range(log_returns(self.history())) {
                Ok::<Option<i128>, crate::types::Error>(
                    Some(returns_variance(log_returns(self.history())) as i128),
                )
            } else {
                Err::<Option<i128>, crate::types::Error>(crate::types::Error::Overflow)
            }),
            r matches Ok(Some(v)) ==> v >= 0,
            (forall|i: int|
                0 <= i < self.history().len() ==> #[trigger] self.history()[i] <= 0x100_0000_0000)
                ==> r is Ok,
    {
        proof {
            use_type_invariant(self);
            self.lemma_slots_and_history();
            self.lemma_history_index();
        }
        let ghost bounded = forall|i: int|
            0 <= i < self.history().len() ==> #[trigger] self.history()[i] <= 0x100_0000_0000;
        proof {
            if self.count >= 2 && bounded {
                lemma_bounded_prices_returns_in_range(self.history());
            }
        }
        if !self.ready || self.count < 3 {
            return Ok(None);
        }
        let window_end = if self.count < WINDOW_SIZE {
            self.count
        } else {
            WINDOW_SIZE
        };
        let ghost s = self.history();
        let ghost lr = log_returns(s);
        // log returns between consecutive prices, in the order they arrived
        let mut rets: Vec<i64> = Vec::new();
        let mut i: usize = 1;
        while i < window_end
            invariant
                1 <= i <= window_end,
                window_end == s.len(),
                window_end <= WINDOW_SIZE,
                self.head < WINDOW_SIZE,
                self.prices@.len() == WINDOW_SIZE,
                forall|k: int|
                    0 <= k < s.len() ==> #[trigger] s[k] == self.prices@[(self.head + k) % (
                    WINDOW_SIZE as int)],
                s == self.history(),
                lr == log_returns(s),
                forall|j: int| 0 <= j < s.len() ==> #[trigger] s[j] > 0,
                rets@ == lr.take(i - 1),
            decreases window_end - i,
        {
            let prev = self.prices[(self.head + i - 1) % WINDOW_SIZE] as u128;
            let curr = self.prices[(self.head + i) % WINDOW_SIZE] as u128;
            assert(prev == s[i - 1] && curr == s[i as int]);
            if prev != 0 && curr != 0 {
                // log return: ln(curr / prev) * 10000, approximated by the ratio
                let ratio = (curr * 10_000) / prev;
                let log_return: i64 = if ratio > 10_000 {
                    (ratio - 10_000) as i64
                } else {
                    -((10_000 - ratio) as i64)
                };
                assert(log_return == lr[i - 1]);
                rets.push(log_return);
            }
            assert(rets@ =~= lr.take(i as int));
            i += 1;
        }
        assert(rets@ =~= lr);
        let n = rets.len();
        if n < 2 {
            return Ok(None);
        }
        // mean
        let mut sum: i64 = 0;
        let mut j: usize = 0;
        assert(lr.take(0) =~= Seq::<i64>::empty());
        while j < n
            invariant
                j <= n,
                n == lr.len(),
                s.len() >= 3,
                s == self.history(),
                bounded == (forall|i: int|
                    0 <= i < self.history().len() ==> #[trigger] self.history()[i]
                        <= 0x100_0000_0000),
                bounded ==> returns_in_range(lr),
                lr == log_returns(s),
                rets@ == lr,
                sum == sum_i64(lr.take(j as int)),
                forall|k: int| 0 <= k <= j ==> i64::MIN <= #[trigger] sum_i64(lr.take(k)) <= i64::MAX,
            decreases n - j,
        {
            assert(lr.take(j + 1).drop_last() =~= lr.take(j as int));
            match sum.checked_add(rets[j]) {
                Some(v) => sum = v,
                None => {
                    assert(!returns_in_range(lr)) by {
                        assert(!(i64::MIN <= sum_i64(lr.take(j + 1)) <= i64::MAX));
                    }
                    return Err(crate::types::Error::Overflow);
                },
            }
            j += 1;
        }
        assert(lr.take(n as int) =~= lr);
        let mean = sum / (n as i64);
        assert(mean == mean_return(lr));
        // variance
        let mut variance_sum: i128 = 0;
        let mut j: usize = 0;
        while j < n
            invariant
                j <= n,
                n == lr.len(),
                s.len() >= 3,
                s == self.history(),
                bounded == (forall|i: int|
                    0 <= i < self.history().len() ==> #[trigger] self.history()[i]
                        <= 0x100_0000_0000),
                bounded ==> returns_in_range(lr),
                lr == log_returns(s),
                rets@ == lr,
                mean == mean_return(lr),
                forall|k: int| 0 <= k <= n ==> i64::MIN <= #[trigger] sum_i64(lr.take(k)) <= i64::MAX,
                forall|k: int| 0 <= k < j ==> i64::MIN <= #[trigger] lr[k] - mean_return(lr) <= i64::MAX,
                forall|k: int|
                    0 <= k <= j ==> #[trigger] sq_dev_sum(lr.take(k), mean_return(lr)) <= i128::MAX,
                variance_sum == sq_dev_sum(lr.take(j as int), mean as int),
            decreases n - j,
        {
            assert(lr.take(j + 1).drop_last() =~= lr.take(j as int));
            let diff = match rets[j].checked_sub(mean) {
                Some(d) => d as i128,
                None => {
                    assert(!returns_in_range(lr)) by {
                        assert(!(i64::MIN <= lr[j as int] - mean_return(lr) <= i64::MAX));
                    }
                    return Err(crate::types::Error::Overflow);
                },
            };
            assert(diff * diff <= 0x4000_0000_0000_0000_0000_0000_0000_0000) by (nonlinear_arith)
                requires
                    -0x8000_0000_0000_0000 <= diff <= 0x7FFF_FFFF_FFFF_FFFF,
            ;
            assert(diff * diff >= 0) by (nonlinear_arith);
            proof {
                lemma_sq_dev_sum_nonneg(lr.take(j as int), mean as int);
            }
            match variance_sum.checked_add(diff * diff) {
                Some(v) => variance_sum = v,
                None => {
                    assert(!returns_in_range(lr)) by {
                        assert(!(sq_dev_sum(lr.take(j + 1), mean_return(lr)) <= i128::MAX));
                    }
                    return Err(crate::types::Error::Overflow);
                },
            }
            j += 1;
        }
        assert(lr.take(n as int) =~= lr);
        proof {
            lemma_sq_dev_sum_nonneg(lr, mean as int);
        }
        let variance = variance_sum / ((n - 1) as i128);
        Ok(Some(variance))
    }

    /// Reset the estimator: the history becomes empty.
    pub fn reset(&mut self)
        ensures
            final(self).history() == Seq::<Price>::empty(),
    {
        let prices = self.prices;
        let next = Self { prices, count: 0, head: 0, last_price: 0, ready: false };
        assert(next.slots() =~= Seq::<Price>::empty());
        *self = next;
    }
}

impl Clone for VolatilityEstimator {
    fn clone(&self) -> (e: Self)
        ensures
            e == *self,
    {
        proof {
            use_type_invariant(self);
        }
        Self {
            prices: self.prices,
            count: self.count,
            head: self.head,
            last_price: self.last_price,
            ready: self.ready,
        }
    }
}

impl Default for VolatilityEstimator {
    fn default() -> (e: Self)
        ensures
            e.history() == Seq::<Price>::empty(),
    {
        Self::new()
    }
}

} // verus!
