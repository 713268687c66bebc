//! Linear taker pricing: take the lag's book when the theoretical price
//! beats it by the threshold, fee and position bias.

use vstd::prelude::*;
use crate::fixed::{
    abs, div_floor, div_trunc, lemma_floor_monotone, lemma_quot_bound, lemma_trunc_monotone, trunc_div,
    PRICE_MAX, SCALE,
};
use crate::oms::TakerContext;
use crate::theo_price::THEO_MAX;
use crate::ticker::Ticker;
use crate::trade_rule::{lot_size, tick_ceil, tick_floor, valid_price, TradeRule};

verus! {

/// Bound on thresholds, fees and bias rates (100 in whole units).
pub const RATE_MAX: i64 = 10_000_000_000;

/// Bound on a USD position or position unit (10^9 USD).
pub const POSITION_MAX: i64 = 100_000_000_000_000_000;

/// Smallest USD position unit (one cent).
pub const UNIT_USD_MIN: i64 = 1_000_000;

/// Bound on a position limit, in position units.
pub const LIMIT_MAX: i64 = 1_000_000_000_000;

/// What the taker model is asked to price.
#[derive(Clone, Copy, Debug, PartialEq, Eq, Structural)]
pub struct BasicLinearTakerContext {
    pub theo_bid: i128,
    pub theo_ask: i128,
    pub ticker: Ticker,
    pub position_usd: i64,
    pub now_ms: u64,
}

/// Thresholds and profits of both sides, whether or not an order fired.
#[derive(Clone, Copy, Debug, PartialEq, Eq, Structural)]
pub struct PricingReportContext {
    pub buy_threshold: i128,
    pub buy_profit: i128,
    pub sell_threshold: i128,
    pub sell_profit: i128,
}

/// An order the model emits, with what it was decided on.
#[derive(Clone, Copy, Debug, PartialEq, Eq, Structural)]
pub struct TakerOrderReportContext {
    pub taker: TakerContext,
    pub position: i64,
    pub taker_threshold: i128,
    pub taker_profit: i128,
    pub ap1: i64,
    pub bp1: i64,
}

/// Threshold `taker_threshold`, fee `taker_fee`, position unit in USD,
/// position limit in units, and an optional bias rate; all fixed point.
pub struct BasicLinearTaker {
    pub taker_threshold: i64,
    pub taker_fee: i64,
    pub position_unit_usd: i64,
    pub position_limit: i64,
    pub position_limit_usd: i128,
    pub bias_rate: Option<i64>,
}

/// `position / unit`: how many position units are held.
pub open spec fn raw_bias(position_usd: int, unit_usd: int) -> int {
    div_trunc(position_usd * SCALE, unit_usd)
}

/// `(buy_bias, sell_bias)`: a long position raises the bar to buy, a short
/// one the bar to sell.
pub open spec fn biases(bias_rate: Option<i64>, position_usd: int, unit_usd: int) -> (int, int) {
    match bias_rate {
        None => (0, 0),
        Some(b) => {
            let raw = raw_bias(position_usd, unit_usd);
            if raw > 0 {
                (div_trunc(raw * b, SCALE as int), 0)
            } else {
                (0, div_trunc(-raw * b, SCALE as int))
            }
        },
    }
}

/// `theo_bid / ask - 1`.
pub open spec fn buy_profit(theo_bid: int, ap1: int) -> int {
    div_trunc(theo_bid * SCALE, ap1) - SCALE
}

/// `1 - theo_ask / bid`.
pub open spec fn sell_profit(theo_ask: int, bp1: int) -> int {
    SCALE - div_trunc(theo_ask * SCALE, bp1)
}

/// `ask * (1 + profit - threshold)` with the exact profit, which is
/// `theo_bid - ask * threshold`, rounded down to the tick.
pub open spec fn buy_price(theo_bid: int, ap1: int, threshold: int, tick: int) -> int {
    tick_floor(theo_bid * SCALE - ap1 * threshold, SCALE as int, tick)
}

/// `bid * (1 - (profit - threshold))` with the exact profit, which is
/// `theo_ask + bid * threshold`, rounded up to the tick.
pub open spec fn sell_price(theo_ask: int, bp1: int, threshold: int, tick: int) -> int {
    tick_ceil(theo_ask * SCALE + bp1 * threshold, SCALE as int, tick)
}

/// The items of an optional value, as a sequence of none or one.
pub open spec fn opt_seq<T>(o: Option<T>) -> Seq<T> {
    match o {
        Some(x) => seq![x],
        None => Seq::empty(),
    }
}

impl BasicLinearTakerContext {
    pub open spec fn wf(&self) -> bool {
        &&& self.ticker.wf()
        &&& abs(self.position_usd as int) <= POSITION_MAX
        &&& abs(self.theo_bid as int) <= THEO_MAX
        &&& abs(self.theo_ask as int) <= THEO_MAX
    }
}

impl BasicLinearTaker {
    pub open spec fn wf(&self) -> bool {
        &&& abs(self.taker_threshold as int) <= RATE_MAX
        &&& abs(self.taker_fee as int) <= RATE_MAX
        &&& UNIT_USD_MIN <= self.position_unit_usd <= POSITION_MAX
        &&& 0 <= self.position_limit <= LIMIT_MAX
        &&& self.position_limit_usd == div_trunc(
            self.position_unit_usd * self.position_limit,
            SCALE as int,
        )
        &&& self.bias_rate.is_some() ==> abs(self.bias_rate.unwrap() as int) <= RATE_MAX
    }

    pub open spec fn buy_threshold(&self, position_usd: int) -> int {
        self.taker_threshold + self.taker_fee + biases(
            self.bias_rate,
            position_usd,
            self.position_unit_usd as int,
        ).0
    }

    pub open spec fn sell_threshold(&self, position_usd: int) -> int {
        self.taker_threshold + self.taker_fee + biases(
            self.bias_rate,
            position_usd,
            self.position_unit_usd as int,
        ).1
    }

    /// The report of thresholds and profits for a pricing request.
    pub open spec fn report(&self, ctx: BasicLinearTakerContext) -> PricingReportContext {
        PricingReportContext {
            buy_threshold: self.buy_threshold(ctx.position_usd as int) as i128,
            buy_profit: buy_profit(ctx.theo_bid as int, ctx.ticker.ap1 as int) as i128,
            sell_threshold: self.sell_threshold(ctx.position_usd as int) as i128,
            sell_profit: sell_profit(ctx.theo_ask as int, ctx.ticker.bp1 as int) as i128,
        }
    }

    /// The buy order, if the buy profit beats its threshold and the price is
    /// one an order can carry. A price outside `(0, PRICE_MAX]`, the range of
    /// this fixed-point representation, emits no order.
    pub open spec fn buy_order(&self, ctx: BasicLinearTakerContext, rule: TradeRule) -> Option<TakerOrderReportContext> {
        let thr = self.buy_threshold(ctx.position_usd as int);
        let profit = buy_profit(ctx.theo_bid as int, ctx.ticker.ap1 as int);
        let price = buy_price(ctx.theo_bid as int, ctx.ticker.ap1 as int, thr, rule.price_unit as int);
        if profit > thr && valid_price(price) {
            Some(TakerOrderReportContext {
                taker: TakerContext {
                    asset: ctx.ticker.asset,
                    price: Some(price as i128),
                    size: lot_size(self.position_unit_usd as int, price, rule.size_unit as int) as i128,
                    is_market: false,
                    max_usd_pos: self.position_limit_usd,
                    now_ms: ctx.now_ms,
                },
                position: ctx.position_usd,
                taker_threshold: thr as i128,
                taker_profit: profit as i128,
                ap1: ctx.ticker.ap1,
                bp1: ctx.ticker.bp1,
            })
        } else {
            None
        }
    }

    /// The sell order, if the sell profit beats its threshold and the price
    /// is one an order can carry. A price outside `(0, PRICE_MAX]`, the range
    /// of this fixed-point representation, emits no order.
    pub open spec fn sell_order(&self, ctx: BasicLinearTakerContext, rule: TradeRule) -> Option<TakerOrderReportContext> {
        let thr = self.sell_threshold(ctx.position_usd as int);
        let profit = sell_profit(ctx.theo_ask as int, ctx.ticker.bp1 as int);
        let price = sell_price(ctx.theo_ask as int, ctx.ticker.bp1 as int, thr, rule.price_unit as int);
        if profit > thr && valid_price(price) {
            Some(TakerOrderReportContext {
                taker: TakerContext {
                    asset: ctx.ticker.asset,
                    price: Some(price as i128),
                    size: -lot_size(self.position_unit_usd as int, price, rule.size_unit as int) as i128,
                    is_market: false,
                    max_usd_pos: self.position_limit_usd,
                    now_ms: ctx.now_ms,
                },
                position: ctx.position_usd,
                taker_threshold: thr as i128,
                taker_profit: profit as i128,
                ap1: ctx.ticker.ap1,
                bp1: ctx.ticker.bp1,
            })
        } else {
            None
        }
    }

    pub fn new(
        taker_threshold: i64,
        taker_fee: i64,
        position_unit_usd: i64,
        position_limit: i64,
        bias_rate: Option<i64>,
    ) -> (r: Self)
        requires
            abs(taker_threshold as int) <= RATE_MAX,
            abs(taker_fee as int) <= RATE_MAX,
            UNIT_USD_MIN <= position_unit_usd <= POSITION_MAX,
            0 <= position_limit <= LIMIT_MAX,
            bias_rate.is_some() ==> abs(bias_rate.unwrap() as int) <= RATE_MAX,
        ensures
            r.wf(),
            r.taker_threshold == taker_threshold,
            r.taker_fee == taker_fee,
            r.position_unit_usd == position_unit_usd,
            r.position_limit == position_limit,
            r.bias_rate == bias_rate,
    {
        assert(0 <= position_unit_usd as i128 * position_limit as i128
            <= 100_000_000_000_000_000_000_000_000_000) by (nonlinear_arith)
            requires
                0 < position_unit_usd <= 100_000_000_000_000_000,
                0 <= position_limit <= 1_000_000_000_000,
        ;
        let position_limit_usd = trunc_div(position_unit_usd as i128 * position_limit as i128, SCALE);
        BasicLinearTaker {
            taker_threshold,
            taker_fee,
            position_unit_usd,
            position_limit,
            position_limit_usd,
            bias_rate,
        }
    }

    fn bias_pair(&self, position_usd: i64) -> (r: (i128, i128))
        requires
            self.wf(),
            abs(position_usd as int) <= POSITION_MAX,
        ensures
            r.0 == biases(self.bias_rate, position_usd as int, self.position_unit_usd as int).0,
            r.1 == biases(self.bias_rate, position_usd as int, self.position_unit_usd as int).1,
            abs(r.0 as int) <= 1_000_000_000_000_000_000_000,
            abs(r.1 as int) <= 1_000_000_000_000_000_000_000,
    {
        match self.bias_rate {
            None => (0, 0),
            Some(b) => {
                let u = self.position_unit_usd as i128;
                let p = position_usd as i128 * SCALE;
                let raw = trunc_div(p, u);
                proof {
                    assert(abs(p as int) <= 10_000_000_000_000_000_000_000_000) by (nonlinear_arith)
                        requires
                            abs(position_usd as int) <= 100_000_000_000_000_000,
                            p == position_usd * 100_000_000,
                    ;
                    assert(abs(p as int) <= 10_000_000_000_000_000_000 * u) by (nonlinear_arith)
                        requires
                            abs(p as int) <= 10_000_000_000_000_000_000_000_000,
                            u >= 1_000_000,
                    ;
                    lemma_quot_bound(abs(p as int), u as int, 10_000_000_000_000_000_000);
                }
                let bb = b as i128;
                assert(abs((raw * bb) as int) <= 100_000_000_000_000_000_000_000_000_000) by (nonlinear_arith)
                    requires
                        abs(raw as int) <= 10_000_000_000_000_000_000,
                        abs(bb as int) <= 10_000_000_000,
                ;
                if raw > 0 {
                    let x = trunc_div(raw * bb, SCALE);
                    proof {
                        lemma_quot_bound(abs((raw * bb) as int), SCALE as int, 1_000_000_000_000_000_000_000);
                    }
                    (x, 0)
                } else {
                    let nr = -raw;
                    assert(nr * bb == -(raw * bb)) by (nonlinear_arith)
                        requires
                            nr == -raw,
                    ;
                    let x = trunc_div(nr * bb, SCALE);
                    proof {
                        lemma_quot_bound(abs((nr * bb) as int), SCALE as int, 1_000_000_000_000_000_000_000);
                    }
                    (0, x)
                }
            },
        }
    }

    /// Prices both sides: the orders that fire, buy before sell, and the
    /// report of thresholds and profits.
    pub fn get_taker_ctx(&self, pricing_ctx: BasicLinearTakerContext, trade_rule: &TradeRule) -> (r: (
        Vec<TakerOrderReportContext>,
        PricingReportContext,
    ))
        requires
            self.wf(),
            pricing_ctx.wf(),
            trade_rule.wf(),
        ensures
            r.1 == self.report(pricing_ctx),
            r.0@ == opt_seq(self.buy_order(pricing_ctx, *trade_rule)) + opt_seq(
                self.sell_order(pricing_ctx, *trade_rule),
            ),
    {
        let ctx = pricing_ctx;
        let ap1 = ctx.ticker.ap1 as i128;
        let bp1 = ctx.ticker.bp1 as i128;
        let (buy_bias, sell_bias) = self.bias_pair(ctx.position_usd);
        let base = self.taker_threshold as i128 + self.taker_fee as i128;
        let buy_threshold = base + buy_bias;
        let sell_threshold = base + sell_bias;
        assert(abs((ctx.theo_bid * SCALE) as int) <= 20_000_000_000_000_000_000_000_000_000_000_000_000) by (nonlinear_arith)
            requires
                abs(ctx.theo_bid as int) <= THEO_MAX,
        ;
        assert(abs((ctx.theo_ask * SCALE) as int) <= 20_000_000_000_000_000_000_000_000_000_000_000_000) by (nonlinear_arith)
            requires
                abs(ctx.theo_ask as int) <= THEO_MAX,
        ;
        let qb = trunc_div(ctx.theo_bid * SCALE, ap1);
        let qa = trunc_div(ctx.theo_ask * SCALE, bp1);
        let buy_profit = qb - SCALE;
        let sell_profit = SCALE - qa;
        let mut ret: Vec<TakerOrderReportContext> = Vec::new();
        let ghost buy = self.buy_order(ctx, *trade_rule);
        let ghost sell = self.sell_order(ctx, *trade_rule);
        if buy_profit > buy_threshold {
            assert(abs((ap1 * buy_threshold) as int) <= 300_000_000_000_000_000_000_000_000_000_000_000) by (nonlinear_arith)
                requires
                    0 < ap1 <= 100_000_000_000_000,
                    abs(buy_threshold as int) <= 1_000_000_000_020_000_000_000,
            ;
            let price = trade_rule.price_floor(ctx.theo_bid * SCALE - ap1 * buy_threshold, SCALE);
            if 0 < price && price <= PRICE_MAX as i128 {
                let size = trade_rule.size_from_usd(self.position_unit_usd as i128, price);
                ret.push(
                    TakerOrderReportContext {
                        taker: TakerContext {
                            asset: ctx.ticker.asset,
                            price: Some(price),
                            size,
                            is_market: false,
                            max_usd_pos: self.position_limit_usd,
                            now_ms: ctx.now_ms,
                        },
                        position: ctx.position_usd,
                        taker_threshold: buy_threshold,
                        taker_profit: buy_profit,
                        ap1: ctx.ticker.ap1,
                        bp1: ctx.ticker.bp1,
                    },
                );
            }
        }
        assert(ret@ == opt_seq(buy));
        let ghost after_buy = ret@;
        if sell_profit > sell_threshold {
            assert(abs((bp1 * sell_threshold) as int) <= 300_000_000_000_000_000_000_000_000_000_000_000) by (nonlinear_arith)
                requires
                    0 < bp1 <= 100_000_000_000_000,
                    abs(sell_threshold as int) <= 1_000_000_000_020_000_000_000,
            ;
            let price = trade_rule.price_ceil(ctx.theo_ask * SCALE + bp1 * sell_threshold, SCALE);
            if 0 < price && price <= PRICE_MAX as i128 {
                let size = trade_rule.size_from_usd(self.position_unit_usd as i128, price);
                ret.push(
                    TakerOrderReportContext {
                        taker: TakerContext {
                            asset: ctx.ticker.asset,
                            price: Some(price),
                            size: -size,
                            is_market: false,
                            max_usd_pos: self.position_limit_usd,
                            now_ms: ctx.now_ms,
                        },
                        position: ctx.position_usd,
                        taker_threshold: sell_threshold,
                        taker_profit: sell_profit,
                        ap1: ctx.ticker.ap1,
                        bp1: ctx.ticker.bp1,
                    },
                );
            }
        }
        assert(ret@ == after_buy + opt_seq(sell));
        (
            ret,
            PricingReportContext {
                buy_threshold,
                buy_profit,
                sell_threshold,
                sell_profit,
            },
        )
    }
}

/// With the lag's book, the position and the model held fixed, a higher
/// theoretical bid never lowers the buy profit, never turns a firing buy off,
/// and never lowers the buy price; a buy order that was emitted is emitted
/// again whenever its new price is still one an order can carry.
pub proof fn lemma_taker_buy_monotone(
    m: BasicLinearTaker,
    ctx: BasicLinearTakerContext,
    higher_theo_bid: i128,
    rule: TradeRule,
)
    requires
        m.wf(),
        ctx.wf(),
        rule.wf(),
        ctx.theo_bid <= higher_theo_bid,
        abs(higher_theo_bid as int) <= THEO_MAX,
    ensures
        ({
            let up = BasicLinearTakerContext { theo_bid: higher_theo_bid, ..ctx };
            let thr = m.buy_threshold(ctx.position_usd as int);
            let ap1 = ctx.ticker.ap1 as int;
            let tick = rule.price_unit as int;
            &&& buy_profit(ctx.theo_bid as int, ap1) <= buy_profit(higher_theo_bid as int, ap1)
            &&& buy_profit(ctx.theo_bid as int, ap1) > thr ==> buy_profit(higher_theo_bid as int, ap1) > thr
            &&& buy_price(ctx.theo_bid as int, ap1, thr, tick) <= buy_price(higher_theo_bid as int, ap1, thr, tick)
            &&& m.buy_order(ctx, rule).is_some() && valid_price(buy_price(higher_theo_bid as int, ap1, thr, tick))
                ==> m.buy_order(up, rule).is_some()
        }),
{
    let ap1 = ctx.ticker.ap1 as int;
    let thr = m.buy_threshold(ctx.position_usd as int);
    let tick = rule.price_unit as int;
    assert(ctx.theo_bid * SCALE <= higher_theo_bid * SCALE) by (nonlinear_arith)
        requires
            ctx.theo_bid <= higher_theo_bid,
    ;
    lemma_trunc_monotone(ctx.theo_bid * SCALE, higher_theo_bid * SCALE, ap1);
    lemma_floor_monotone(
        ctx.theo_bid * SCALE - ap1 * thr,
        higher_theo_bid * SCALE - ap1 * thr,
        SCALE * tick,
    );
    let f1 = div_floor(ctx.theo_bid * SCALE - ap1 * thr, SCALE * tick);
    let f2 = div_floor(higher_theo_bid * SCALE - ap1 * thr, SCALE * tick);
    assert(tick * f1 <= tick * f2) by (nonlinear_arith)
        requires
            f1 <= f2,
            tick > 0,
    ;
}

} // verus!
