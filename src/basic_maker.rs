//! Basic maker pricing: quote inside the lag's book around theoretical prices.

use vstd::prelude::*;
use crate::fixed::{abs, div_trunc, trunc_div, PRICE_MAX, SCALE};
use crate::linear_taker::{POSITION_MAX, UNIT_USD_MIN, LIMIT_MAX};
use crate::oms::MakerContext;
use crate::theo_price::THEO_MAX;
use crate::ticker::Ticker;
use crate::trade_rule::{lot_size, tick_ceil, tick_floor, valid_price, TradeRule};

verus! {

/// Bound on the minimum quote distances, in basis points or ticks (fixed point).
pub const DIFF_MAX: i64 = 10_000_000_000_000_000;

/// Basis points in one.
pub const BPS: i128 = 10_000;

/// What the maker model is asked to price.
#[derive(Clone, Copy, Debug, PartialEq, Eq, Structural)]
pub struct BasicMakerContext {
    pub theo_bid: i128,
    pub theo_ask: i128,
    pub ticker: Ticker,
    pub position_usd: i64,
    pub min_bps_diff: i64,
    pub min_tick_diff: i64,
    pub now_ms: u64,
}

/// A quote the maker model emits.
#[derive(Clone, Copy, Debug, PartialEq, Eq, Structural)]
pub struct MakerOrderReportContext {
    pub maker: MakerContext,
}

/// The maker model reports nothing beyond its quotes.
#[derive(Clone, Copy, Debug, PartialEq, Eq, Structural)]
pub struct PricingReportContext {}

/// Position unit in USD and the USD position limit.
pub struct BasicMaker {
    pub position_unit_usd: i64,
    pub position_limit_usd: i128,
}

pub open spec fn min3(a: int, b: int, c: int) -> int {
    let m = if a <= b { a } else { b };
    if m <= c { m } else { c }
}

pub open spec fn max3(a: int, b: int, c: int) -> int {
    let m = if a >= b { a } else { b };
    if m >= c { m } else { c }
}

/// The bid: the theoretical bid, but no higher than one tick above the lag
/// bid nor one tick below the lag ask; rounded down to the tick.
pub open spec fn maker_bid(theo_bid: int, t: Ticker, tick: int) -> int {
    tick_floor(min3(theo_bid, t.bp1 + tick, t.ap1 - tick), 1, tick)
}

/// The ask: the theoretical ask, but no lower than one tick below the lag
/// ask nor one tick above the lag bid; rounded up to the tick.
pub open spec fn maker_ask(theo_ask: int, t: Ticker, tick: int) -> int {
    tick_ceil(max3(theo_ask, t.ap1 - tick, t.bp1 + tick), 1, tick)
}

/// `max(mid * min_bps * 1e-4, tick * min_tick)` for the quoted mid.
pub open spec fn min_price_diff(bid: int, ask: int, min_bps: int, tick: int, min_tick: int) -> int {
    let by_bps = div_trunc((bid + ask) * min_bps, 2 * SCALE * BPS);
    let by_tick = div_trunc(tick * min_tick, SCALE as int);
    if by_bps >= by_tick { by_bps } else { by_tick }
}

impl BasicMakerContext {
    pub open spec fn wf(&self) -> bool {
        &&& self.ticker.wf()
        &&& abs(self.position_usd as int) <= POSITION_MAX
        &&& abs(self.theo_bid as int) <= THEO_MAX
        &&& abs(self.theo_ask as int) <= THEO_MAX
        &&& abs(self.min_bps_diff as int) <= DIFF_MAX
        &&& abs(self.min_tick_diff as int) <= DIFF_MAX
    }
}

impl BasicMaker {
    pub open spec fn wf(&self) -> bool {
        UNIT_USD_MIN <= self.position_unit_usd <= POSITION_MAX
    }

    /// The quotes, bid then ask: each side whose own price is one an order can
    /// carry (positive, at most `PRICE_MAX`), both sized at the mid price;
    /// none when the mid price itself is out of that range, as there is then
    /// nothing to size them by.
    pub open spec fn quotes(&self, ctx: BasicMakerContext, rule: TradeRule) -> Seq<MakerOrderReportContext> {
        let tick = rule.price_unit as int;
        let bid = maker_bid(ctx.theo_bid as int, ctx.ticker, tick);
        let ask = maker_ask(ctx.theo_ask as int, ctx.ticker, tick);
        let mid = (bid + ask) / 2;
        let size = lot_size(self.position_unit_usd as int, mid, rule.size_unit as int);
        let diff = min_price_diff(bid, ask, ctx.min_bps_diff as int, tick, ctx.min_tick_diff as int);
        let bid_quote = MakerOrderReportContext { maker: MakerContext {
            asset: ctx.ticker.asset,
            price: bid as i128,
            size: size as i128,
            is_post_only: true,
            is_first: false,
            max_order_num: 1,
            order_min_price_diff: diff as i128,
            max_usd_pos: self.position_limit_usd,
            now_ms: ctx.now_ms,
        } };
        let ask_quote = MakerOrderReportContext { maker: MakerContext {
            asset: ctx.ticker.asset,
            price: ask as i128,
            size: -size as i128,
            is_post_only: true,
            is_first: false,
            max_order_num: 1,
            order_min_price_diff: diff as i128,
            max_usd_pos: self.position_limit_usd,
            now_ms: ctx.now_ms,
        } };
        if valid_price(mid) {
            (if valid_price(bid) { seq![bid_quote] } else { Seq::empty() }) + (if valid_price(ask) {
                seq![ask_quote]
            } else {
                Seq::empty()
            })
        } else {
            Seq::empty()
        }
    }

    /// A limit of one unit or less is read as a tenth of a unit.
    pub fn new(position_unit_usd: i64, position_limit: i64) -> (r: Self)
        requires
            UNIT_USD_MIN <= position_unit_usd <= POSITION_MAX,
            0 <= position_limit <= LIMIT_MAX,
        ensures
            r.wf(),
            r.position_unit_usd == position_unit_usd,
            r.position_limit_usd == if position_limit <= SCALE {
                position_unit_usd / 10
            } else {
                div_trunc(position_unit_usd * position_limit, SCALE as int)
            },
    {
        let position_limit_usd = if position_limit as i128 <= SCALE {
            position_unit_usd as i128 / 10
        } else {
            assert(0 <= position_unit_usd as i128 * position_limit as i128
                <= 100_000_000_000_000_000_000_000_000_000) by (nonlinear_arith)
                requires
                    0 < position_unit_usd <= 100_000_000_000_000_000,
                    0 <= position_limit <= 1_000_000_000_000,
            ;
            trunc_div(position_unit_usd as i128 * position_limit as i128, SCALE)
        };
        BasicMaker { position_unit_usd, position_limit_usd }
    }

    /// Prices a bid and an ask for the lag and sizes them from the position unit.
    pub fn get_maker_ctx(&self, pricing_ctx: BasicMakerContext, trade_rule: &TradeRule) -> (r: (
        Vec<MakerOrderReportContext>,
        PricingReportContext,
    ))
        requires
            self.wf(),
            pricing_ctx.wf(),
            trade_rule.wf(),
        ensures
            r.0@ == self.quotes(pricing_ctx, *trade_rule),
    {
        let ctx = pricing_ctx;
        let tick = trade_rule.price_unit as i128;
        let bp1 = ctx.ticker.bp1 as i128;
        let ap1 = ctx.ticker.ap1 as i128;
        let mut bid_raw = ctx.theo_bid;
        if bp1 + tick < bid_raw {
            bid_raw = bp1 + tick;
        }
        if ap1 - tick < bid_raw {
            bid_raw = ap1 - tick;
        }
        let mut ask_raw = ctx.theo_ask;
        if ap1 - tick > ask_raw {
            ask_raw = ap1 - tick;
        }
        if bp1 + tick > ask_raw {
            ask_raw = bp1 + tick;
        }
        let bid = trade_rule.price_floor(bid_raw, 1);
        let ask = trade_rule.price_ceil(ask_raw, 1);
        let mut ret: Vec<MakerOrderReportContext> = Vec::new();
        let sum = bid + ask;
        if sum >= 2 && sum / 2 <= PRICE_MAX as i128 {
            let mid = sum / 2;
            let size = trade_rule.size_from_usd(self.position_unit_usd as i128, mid);
            assert(abs((sum * ctx.min_bps_diff) as int) <= 3_000_000_000_000_000_000_000_000_000_000) by (nonlinear_arith)
                requires
                    2 <= sum <= 200_000_000_000_001,
                    abs(ctx.min_bps_diff as int) <= 10_000_000_000_000_000,
            ;
            assert(abs((tick * ctx.min_tick_diff) as int) <= 1_000_000_000_000_000_000_000_000_000_000) by (nonlinear_arith)
                requires
                    0 < tick <= 100_000_000_000_000,
                    abs(ctx.min_tick_diff as int) <= 10_000_000_000_000_000,
            ;
            let by_bps = trunc_div(sum * ctx.min_bps_diff as i128, 2 * SCALE * BPS);
            let by_tick = trunc_div(tick * ctx.min_tick_diff as i128, SCALE);
            let diff = if by_bps >= by_tick {
                by_bps
            } else {
                by_tick
            };
            if 0 < bid && bid <= PRICE_MAX as i128 {
                ret.push(MakerOrderReportContext { maker: MakerContext {
                    asset: ctx.ticker.asset,
                    price: bid,
                    size,
                    is_post_only: true,
                    is_first: false,
                    max_order_num: 1,
                    order_min_price_diff: diff,
                    max_usd_pos: self.position_limit_usd,
                    now_ms: ctx.now_ms,
                } });
            }
            if 0 < ask && ask <= PRICE_MAX as i128 {
                ret.push(MakerOrderReportContext { maker: MakerContext {
                    asset: ctx.ticker.asset,
                    price: ask,
                    size: -size,
                    is_post_only: true,
                    is_first: false,
                    max_order_num: 1,
                    order_min_price_diff: diff,
                    max_usd_pos: self.position_limit_usd,
                    now_ms: ctx.now_ms,
                } });
            }
        }
        proof {
            assert(ret@ =~= self.quotes(ctx, *trade_rule));
        }
        (ret, PricingReportContext {})
    }
}

} // verus!
