//! The new-coin maker model: a volume-weighted price and a trade-dispersion
//! sigma, each a ratio of two continuous-time averages, and the quotes they
//! give.

use vstd::prelude::*;
use crate::basic_maker::BPS;
use crate::ema::bounded;
use crate::fixed::{abs, div_trunc, trunc_div, lemma_quot_bound, PRICE_MAX, SCALE};
use crate::period::{is_valid_period, period_ms_of};
use crate::tema::{tema_next, TemaMs};

verus! {

/// Largest traded volume a model takes (10^7 whole units).
pub const VOLUME_MAX: i64 = 1_000_000_000_000_000;

/// Bound on a fixed-point natural logarithm handed to the model (|ln| <= 100).
pub const LOG_MAX: i128 = 10_000_000_000;

/// Bound on the sigma multiplier.
pub const MULTI_MAX: i64 = 10_000_000_000;

/// Bound on the sigma floor, in basis points (fixed point).
pub const MIN_BPS_MAX: i64 = 1_000_000_000_000;

/// A print of the market: price, signed volume, and venue time.
#[derive(Clone, Copy, Debug, PartialEq, Eq, Structural)]
pub struct Trade {
    pub price: i64,
    pub volume: i64,
    pub transaction_time: u64,
}

/// The decay factors, `exp(-(ts - last_ts) / tau)` in fixed point, of the
/// four averages for one trade, in the order value, volume, value
/// dispersion, volume dispersion.
#[derive(Clone, Copy, Debug, PartialEq, Eq, Structural)]
pub struct TemaDecays {
    pub value: i128,
    pub volume: i128,
    pub value_diff: i128,
    pub volume_diff: i128,
}

impl Trade {
    pub open spec fn wf(&self) -> bool {
        0 < self.price <= PRICE_MAX && abs(self.volume as int) <= VOLUME_MAX
    }
}

impl TemaDecays {
    pub open spec fn wf(&self) -> bool {
        &&& 0 <= self.value <= SCALE
        &&& 0 <= self.volume <= SCALE
        &&& 0 <= self.value_diff <= SCALE
        &&& 0 <= self.volume_diff <= SCALE
    }
}

/// Traded value `price * |volume|`.
pub open spec fn trade_value(t: Trade) -> int {
    div_trunc(t.price * abs(t.volume as int), SCALE as int)
}

/// `value / volume` as a price.
pub open spec fn ratio_price(value: int, volume: int) -> int {
    div_trunc(value * SCALE, volume)
}

/// The dispersion sample `|P * ln(p / P)| * |volume|`.
pub open spec fn dispersion(price_tema: int, log_ratio: int, volume: int) -> int {
    div_trunc(abs(div_trunc(price_tema * log_ratio, SCALE as int)) * abs(volume), SCALE as int)
}

pub struct NewCoinMakerModel {
    pub asset: u64,
    pub value_tema: TemaMs,
    pub volume_tema: TemaMs,
    pub value_diff_tema: TemaMs,
    pub volume_diff_tema: TemaMs,
    pub sigma_multi: i64,
    pub sigma_min_bps: i64,
}

fn trade_amounts(trade: &Trade) -> (r: (i128, i128))
    requires
        trade.wf(),
    ensures
        r.0 == trade_value(*trade),
        r.1 == abs(trade.volume as int),
        bounded(r.0 as int),
        bounded(r.1 as int),
        0 <= r.1 <= VOLUME_MAX,
{
    let q = if trade.volume >= 0 {
        trade.volume as i128
    } else {
        -(trade.volume as i128)
    };
    assert(0 <= trade.price * q <= 100_000_000_000_000_000_000_000_000_000) by (nonlinear_arith)
        requires
            0 < trade.price <= 100_000_000_000_000,
            0 <= q <= 1_000_000_000_000_000,
    ;
    let v = trunc_div(trade.price as i128 * q, SCALE);
    proof {
        lemma_quot_bound((trade.price * q) as int, SCALE as int, 1_000_000_000_000_000_000_000);
    }
    (v, q)
}

impl NewCoinMakerModel {
    pub open spec fn wf(&self) -> bool {
        &&& self.value_tema.wf()
        &&& self.volume_tema.wf()
        &&& self.value_diff_tema.wf()
        &&& self.volume_diff_tema.wf()
        &&& abs(self.sigma_multi as int) <= MULTI_MAX
        &&& 0 <= self.sigma_min_bps <= MIN_BPS_MAX
    }

    /// All four averages fed, and both denominators positive.
    pub open spec fn ready(&self) -> bool {
        &&& self.value_tema.ready()
        &&& self.volume_tema.ready()
        &&& self.value_diff_tema.ready()
        &&& self.volume_diff_tema.ready()
        &&& self.volume_tema.val > 0
        &&& self.volume_diff_tema.val > 0
    }

    /// The volume-weighted price `value / volume`.
    pub open spec fn price(&self) -> int {
        ratio_price(self.value_tema.val as int, self.volume_tema.val as int)
    }

    /// The dispersion `value_diff / volume_diff`.
    pub open spec fn sigma(&self) -> int {
        ratio_price(self.value_diff_tema.val as int, self.volume_diff_tema.val as int)
    }

    /// The half-width of the quotes: `max(sigma * multi, P * min_bps * 1e-4)`.
    pub open spec fn half_width(&self) -> int {
        let by_sigma = div_trunc(
            self.value_diff_tema.val * self.sigma_multi,
            self.volume_diff_tema.val as int,
        );
        let floor = div_trunc(
            self.value_tema.val * self.sigma_min_bps,
            self.volume_tema.val * BPS,
        );
        if by_sigma >= floor {
            by_sigma
        } else {
            floor
        }
    }

    /// The volume-weighted price after `trade` updates the value and volume
    /// averages with `decays`; `None` when that is not a price an order can
    /// carry.
    pub open spec fn price_after(&self, trade: Trade, decays: TemaDecays) -> Option<int> {
        let value = tema_next(self.value_tema.val as int, self.value_tema.last_ts, trade_value(trade), decays.value as int, self.value_tema.tau_value as int);
        let volume = tema_next(self.volume_tema.val as int, self.volume_tema.last_ts, abs(trade.volume as int), decays.volume as int, self.volume_tema.tau_value as int);
        if volume > 0 && 0 < ratio_price(value, volume) <= PRICE_MAX {
            Some(ratio_price(value, volume))
        } else {
            None
        }
    }

    /// `after` is `before` fed with `trade` (see `update`).
    pub open spec fn fed(
        before: NewCoinMakerModel,
        after: NewCoinMakerModel,
        trade: Trade,
        decays: TemaDecays,
        log_ratio: i128,
    ) -> bool {
        &&& after.asset == before.asset
        &&& after.sigma_multi == before.sigma_multi
        &&& after.sigma_min_bps == before.sigma_min_bps
        &&& after.value_tema.val == tema_next(before.value_tema.val as int, before.value_tema.last_ts, trade_value(trade), decays.value as int, before.value_tema.tau_value as int)
        &&& after.volume_tema.val == tema_next(before.volume_tema.val as int, before.volume_tema.last_ts, abs(trade.volume as int), decays.volume as int, before.volume_tema.tau_value as int)
        &&& after.value_tema.last_ts == trade.transaction_time
        &&& after.volume_tema.last_ts == trade.transaction_time
        &&& match before.price_after(trade, decays) {
            Some(p) => {
                &&& after.value_diff_tema.val == tema_next(before.value_diff_tema.val as int, before.value_diff_tema.last_ts, dispersion(p, log_ratio as int, trade.volume as int), decays.value_diff as int, before.value_diff_tema.tau_value as int)
                &&& after.volume_diff_tema.val == tema_next(before.volume_diff_tema.val as int, before.volume_diff_tema.last_ts, abs(trade.volume as int), decays.volume_diff as int, before.volume_diff_tema.tau_value as int)
                &&& after.value_diff_tema.last_ts == trade.transaction_time
                &&& after.volume_diff_tema.last_ts == trade.transaction_time
            },
            None => {
                &&& after.value_diff_tema.val == before.value_diff_tema.val
                &&& after.volume_diff_tema.val == before.volume_diff_tema.val
                &&& after.value_diff_tema.last_ts == before.value_diff_tema.last_ts
                &&& after.volume_diff_tema.last_ts == before.volume_diff_tema.last_ts
            },
        }
        &&& after.value_tema.tau_value == before.value_tema.tau_value
        &&& after.volume_tema.tau_value == before.volume_tema.tau_value
        &&& after.value_diff_tema.tau_value == before.value_diff_tema.tau_value
        &&& after.volume_diff_tema.tau_value == before.volume_diff_tema.tau_value
    }

    /// A model for `asset`, with time constants `tau_p` (price) and `tau_o`
    /// (dispersion), resumed from saved `(value, last_ts)` pairs when given.
    pub fn new(
        asset: u64,
        tau_p: &str,
        tau_o: &str,
        sigma_multi: i64,
        sigma_min_bps: i64,
        warm_start: (Option<(i128, u64)>, Option<(i128, u64)>, Option<(i128, u64)>, Option<(i128, u64)>),
    ) -> (r: Self)
        requires
            is_valid_period(tau_p@),
            period_ms_of(tau_p@) > 0,
            is_valid_period(tau_o@),
            period_ms_of(tau_o@) > 0,
            abs(sigma_multi as int) <= MULTI_MAX,
            0 <= sigma_min_bps <= MIN_BPS_MAX,
            warm_start.0.is_some() ==> bounded(warm_start.0.unwrap().0 as int),
            warm_start.1.is_some() ==> bounded(warm_start.1.unwrap().0 as int),
            warm_start.2.is_some() ==> bounded(warm_start.2.unwrap().0 as int),
            warm_start.3.is_some() ==> bounded(warm_start.3.unwrap().0 as int),
        ensures
            r.wf(),
            r.asset == asset,
            r.sigma_multi == sigma_multi,
            r.sigma_min_bps == sigma_min_bps,
            r.value_tema.tau@ == tau_p@ && r.volume_tema.tau@ == tau_p@,
            r.value_diff_tema.tau@ == tau_o@ && r.volume_diff_tema.tau@ == tau_o@,
            r.value_tema.tau_value == period_ms_of(tau_p@),
            r.volume_tema.tau_value == period_ms_of(tau_p@),
            r.value_diff_tema.tau_value == period_ms_of(tau_o@),
            r.volume_diff_tema.tau_value == period_ms_of(tau_o@),
            (r.value_tema.val, r.value_tema.last_ts) == match warm_start.0 {
                Some(w) => w,
                None => (0i128, 0u64),
            },
            (r.volume_tema.val, r.volume_tema.last_ts) == match warm_start.1 {
                Some(w) => w,
                None => (0i128, 0u64),
            },
            (r.value_diff_tema.val, r.value_diff_tema.last_ts) == match warm_start.2 {
                Some(w) => w,
                None => (0i128, 0u64),
            },
            (r.volume_diff_tema.val, r.volume_diff_tema.last_ts) == match warm_start.3 {
                Some(w) => w,
                None => (0i128, 0u64),
            },
    {
        NewCoinMakerModel {
            asset,
            value_tema: TemaMs::new(tau_p, warm_start.0),
            volume_tema: TemaMs::new(tau_p, warm_start.1),
            value_diff_tema: TemaMs::new(tau_o, warm_start.2),
            volume_diff_tema: TemaMs::new(tau_o, warm_start.3),
            sigma_multi,
            sigma_min_bps,
        }
    }

    pub fn is_ready(&self) -> (r: bool)
        ensures
            r == self.ready(),
    {
        self.value_tema.is_ready() && self.volume_tema.is_ready() && self.value_diff_tema.is_ready()
            && self.volume_diff_tema.is_ready() && self.volume_tema.val > 0
            && self.volume_diff_tema.val > 0
    }

    /// The volume-weighted price.
    pub fn get_tema_price(&self) -> (r: i128)
        requires
            self.wf(),
            self.ready(),
        ensures
            r == self.price(),
    {
        trunc_div(self.value_tema.val * SCALE, self.volume_tema.val)
    }

    /// The trade-dispersion sigma.
    pub fn get_tema_sigma(&self) -> (r: i128)
        requires
            self.wf(),
            self.ready(),
        ensures
            r == self.sigma(),
    {
        trunc_div(self.value_diff_tema.val * SCALE, self.volume_diff_tema.val)
    }

    /// `(theo_ask, theo_bid)`: the volume-weighted price plus and minus the
    /// half-width.
    pub fn get_quote_price(&self) -> (r: (i128, i128))
        requires
            self.wf(),
            self.ready(),
        ensures
            r.0 == self.price() + self.half_width(),
            r.1 == self.price() - self.half_width(),
    {
        let price = self.get_tema_price();
        assert(abs((self.value_diff_tema.val * self.sigma_multi) as int) <= 1_000_000_000_000_000_000_000_000_000_000_000) by (nonlinear_arith)
            requires
                abs(self.value_diff_tema.val as int) <= 100_000_000_000_000_000_000_000,
                abs(self.sigma_multi as int) <= 10_000_000_000,
        ;
        assert(abs((self.value_tema.val * self.sigma_min_bps) as int) <= 100_000_000_000_000_000_000_000_000_000_000_000) by (nonlinear_arith)
            requires
                abs(self.value_tema.val as int) <= 100_000_000_000_000_000_000_000,
                0 <= self.sigma_min_bps <= 1_000_000_000_000,
        ;
        let by_sigma = trunc_div(self.value_diff_tema.val * self.sigma_multi as i128, self.volume_diff_tema.val);
        let floor = trunc_div(self.value_tema.val * self.sigma_min_bps as i128, self.volume_tema.val * BPS);
        let half = if by_sigma >= floor {
            by_sigma
        } else {
            floor
        };
        (price + half, price - half)
    }

    /// The volume-weighted price that `trade` would lead to; the caller takes
    /// `ln(trade.price / P)` of it before `update`.
    pub fn price_after_trade(&self, trade: &Trade, decays: &TemaDecays) -> (r: Option<i128>)
        requires
            self.wf(),
            trade.wf(),
            decays.wf(),
        ensures
            r == match self.price_after(*trade, *decays) {
                Some(p) => Some(p as i128),
                None => None,
            },
    {
        let mut value = self.value_tema.clone_state();
        let mut volume = self.volume_tema.clone_state();
        let (tv, tq) = trade_amounts(trade);
        value.update(tv, trade.transaction_time, decays.value);
        volume.update(tq, trade.transaction_time, decays.volume);
        if volume.val <= 0 {
            return None;
        }
        let p = trunc_div(value.val * SCALE, volume.val);
        if 0 < p && p <= PRICE_MAX as i128 {
            Some(p)
        } else {
            None
        }
    }

    /// Feeds one trade. The value and volume averages take `price * |volume|`
    /// and `|volume|`; when the new volume-weighted price `P` is one an order
    /// can carry, the dispersion averages take `|P * ln(price / P)| * |volume|`
    /// (with `log_ratio = ln(price / P)` from the caller) and `|volume|`.
    pub fn update(&mut self, trade: &Trade, decays: &TemaDecays, log_ratio: i128)
        requires
            old(self).wf(),
            trade.wf(),
            decays.wf(),
            abs(log_ratio as int) <= LOG_MAX,
        ensures
            final(self).wf(),
            NewCoinMakerModel::fed(*old(self), *final(self), *trade, *decays, log_ratio),
    {
        let after = self.price_after_trade(trade, decays);
        let (tv, tq) = trade_amounts(trade);
        self.value_tema.update(tv, trade.transaction_time, decays.value);
        self.volume_tema.update(tq, trade.transaction_time, decays.volume);
        if let Some(p) = after {
            assert(abs((p * log_ratio) as int) <= 1_000_000_000_000_000_000_000_000) by (nonlinear_arith)
                requires
                    0 < p <= 100_000_000_000_000,
                    abs(log_ratio as int) <= 10_000_000_000,
            ;
            let diff = trunc_div(p * log_ratio, SCALE);
            let ad = if diff >= 0 {
                diff
            } else {
                -diff
            };
            proof {
                lemma_quot_bound(abs((p * log_ratio) as int), SCALE as int, 10_000_000_000_000_000);
            }
            assert(0 <= ad * tq <= 10_000_000_000_000_000_000_000_000_000_000) by (nonlinear_arith)
                requires
                    0 <= ad <= 10_000_000_000_000_000,
                    0 <= tq <= 1_000_000_000_000_000,
            ;
            let sample = trunc_div(ad * tq, SCALE);
            proof {
                lemma_quot_bound((ad * tq) as int, SCALE as int, 100_000_000_000_000_000_000_000);
            }
            self.value_diff_tema.update(sample, trade.transaction_time, decays.value_diff);
            self.volume_diff_tema.update(tq, trade.transaction_time, decays.volume_diff);
        }
    }
}

} // verus!
