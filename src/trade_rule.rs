//! A venue's price tick and size lot, and rounding to them.

use vstd::prelude::*;
use crate::fixed::{ceil_div, div_ceil, div_floor, floor_div, lemma_div_bracket, lemma_shrink_by_factor, PRICE_MAX, SCALE};

verus! {

/// Largest USD amount an order may be sized from, in `1 / SCALE` units.
pub const USD_MAX: i128 = 100_000_000_000_000_000_000;

/// Price tick and size lot of an instrument, both positive.
#[derive(Clone, Copy, Debug, PartialEq, Eq, Structural)]
pub struct TradeRule {
    pub price_unit: i64,
    pub size_unit: i64,
}

/// A price an order can carry: positive and in range.
pub open spec fn valid_price(p: int) -> bool {
    0 < p <= PRICE_MAX
}

/// The largest multiple of `tick` not above `num / den`.
pub open spec fn tick_floor(num: int, den: int, tick: int) -> int {
    tick * div_floor(num, den * tick)
}

/// The smallest multiple of `tick` not below `num / den`.
pub open spec fn tick_ceil(num: int, den: int, tick: int) -> int {
    tick * div_ceil(num, den * tick)
}

/// The smallest multiple of `lot` whose value at `price` is at least `usd`.
pub open spec fn lot_size(usd: int, price: int, lot: int) -> int {
    lot * div_ceil(usd * SCALE, price * lot)
}

impl TradeRule {
    pub open spec fn wf(&self) -> bool {
        &&& 0 < self.price_unit <= PRICE_MAX
        &&& 0 < self.size_unit <= PRICE_MAX
    }

    /// `num / den` rounded down to the tick.
    pub fn price_floor(&self, num: i128, den: i128) -> (r: i128)
        requires
            self.wf(),
            0 < den <= SCALE,
            -100_000_000_000_000_000_000_000_000_000_000_000_000 <= num
                <= 100_000_000_000_000_000_000_000_000_000_000_000_000,
        ensures
            r == tick_floor(num as int, den as int, self.price_unit as int),
            den * r <= num < den * r + den * self.price_unit,
    {
        let tick = self.price_unit as i128;
        let ghost (n, d, t) = (num as int, den as int, tick as int);
        assert(0 < d * t <= 10_000_000_000_000_000_000_000) by (nonlinear_arith)
            requires
                0 < d <= 100_000_000,
                0 < t <= 100_000_000_000_000,
        ;
        let q = floor_div(num, den * tick);
        proof {
            let m = d * t;
            assert(q == n / m);
            lemma_div_bracket(n, m);
            assert(m * q <= n);
            assert(n - m < m * q);
            assert(d * (t * q) == m * q) by (nonlinear_arith)
                requires
                    m == d * t,
            ;
            lemma_shrink_by_factor(
                t * q,
                d,
                -110_000_000_000_000_000_000_000_000_000_000_000_000,
                100_000_000_000_000_000_000_000_000_000_000_000_000,
            );
        }
        tick * q
    }

    /// `num / den` rounded up to the tick.
    pub fn price_ceil(&self, num: i128, den: i128) -> (r: i128)
        requires
            self.wf(),
            0 < den <= SCALE,
            -100_000_000_000_000_000_000_000_000_000_000_000_000 <= num
                <= 100_000_000_000_000_000_000_000_000_000_000_000_000,
        ensures
            r == tick_ceil(num as int, den as int, self.price_unit as int),
            num <= den * r < num + den * self.price_unit,
    {
        let tick = self.price_unit as i128;
        let ghost (n, d, t) = (num as int, den as int, tick as int);
        assert(0 < d * t <= 10_000_000_000_000_000_000_000) by (nonlinear_arith)
            requires
                0 < d <= 100_000_000,
                0 < t <= 100_000_000_000_000,
        ;
        let q = ceil_div(num, den * tick);
        proof {
            let m = d * t;
            assert(q == -((-n) / m));
            lemma_div_bracket(-n, m);
            assert(m * q == -(m * ((-n) / m))) by (nonlinear_arith)
                requires
                    q == -((-n) / m),
            ;
            assert(n <= m * q);
            assert(m * q < n + m);
            assert(d * (t * q) == m * q) by (nonlinear_arith)
                requires
                    m == d * t,
            ;
            lemma_shrink_by_factor(
                t * q,
                d,
                -100_000_000_000_000_000_000_000_000_000_000_000_000,
                110_000_000_000_000_000_000_000_000_000_000_000_000,
            );
        }
        tick * q
    }

    /// The size, in whole lots rounded up, worth `usd` at `price`.
    pub fn size_from_usd(&self, usd: i128, price: i128) -> (r: i128)
        requires
            self.wf(),
            0 <= usd <= USD_MAX,
            valid_price(price as int),
        ensures
            r == lot_size(usd as int, price as int, self.size_unit as int),
            r >= 0,
    {
        let lot = self.size_unit as i128;
        assert(0 < price * lot <= 10_000_000_000_000_000_000_000_000_000) by (nonlinear_arith)
            requires
                0 < price <= 100_000_000_000_000,
                0 < lot <= 100_000_000_000_000,
        ;
        let q = ceil_div(usd * SCALE, price * lot);
        let ghost (u, p, l) = ((usd * SCALE) as int, price as int, lot as int);
        proof {
            let m = p * l;
            assert(q == -((-u) / m));
            lemma_div_bracket(-u, m);
            assert(m * q == -(m * ((-u) / m))) by (nonlinear_arith)
                requires
                    q == -((-u) / m),
            ;
            assert(u <= m * q);
            assert(m * q < u + m);
            assert(p * (l * q) == m * q) by (nonlinear_arith)
                requires
                    m == p * l,
            ;
            assert(0 <= u <= 10_000_000_000_000_000_000_000_000_000);
            lemma_shrink_by_factor(l * q, p, 0, 200_000_000_000_000_000_000_000_000_000);
        }
        lot * q
    }
}

} // verus!
