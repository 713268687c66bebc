//! The lead/lag taker: a lead tick prices the lag and may take its book; a
//! lag tick refreshes the lag's offsets.

use vstd::prelude::*;
use crate::ema::{is_valid_window, warm_start_ok, window_length, OffsetEma, OffsetEmaConfig};
use crate::fixed::abs;
use crate::linear_taker::{
    opt_seq, BasicLinearTaker, BasicLinearTakerContext, PricingReportContext, TakerOrderReportContext,
    LIMIT_MAX, POSITION_MAX, RATE_MAX, UNIT_USD_MIN,
};
use crate::offset_cache::{distinct, position_of, OffsetCache, OffsetUpdateError};
use crate::strategy::{Strategy, StrategyError};
use crate::theo_price::{get_theo_taker_price, taker_theo, TheoPriceError};

verus! {

/// One traded lag, the lead it follows, the offset period it trades on, and
/// its pricing model.
pub struct TradePair {
    pub lead: u64,
    pub lag: u64,
    pub use_period: String,
    pub pricing: BasicLinearTaker,
}

/// Why a tick produced nothing.
#[derive(Clone, Copy, Debug, PartialEq, Eq, Structural)]
pub enum TickSkip {
    /// The instrument has no cached ticker.
    TickerMissing { asset: u64 },
    /// The lead tick itself arrived too late.
    LeadDelayed { asset: u64, delay: u64 },
    /// The lead's smoothed delay is over the limit.
    LeadEmaDelayed { asset: u64 },
    /// The lag of this lead has no cached ticker.
    LagTickerMissing { lag: u64 },
    /// No usable theoretical price.
    Theo(TheoPriceError),
    /// No usable position for the lag.
    Position(StrategyError),
    /// The lag's position is beyond what the pricing model takes.
    PositionOutOfRange { lag: u64 },
    /// No trade rule for the lag.
    TradeRuleMissing { lag: u64 },
    /// The offset cache is not initialised yet.
    CacheNotInit,
    /// The lead of this lag has no cached ticker.
    LeadTickerMissing { lead: u64 },
    /// The instrument is neither a lead nor a lag.
    NotLeadOrLag { asset: u64 },
}

/// What a tick led to.
pub enum TickOutcome {
    /// A lead tick priced its lag: the lag's mid price, the pricing report,
    /// and the orders to hand to the lag's order manager.
    Priced { lag: u64, lag_mid: i64, report: PricingReportContext, orders: Vec<TakerOrderReportContext> },
    /// A lead tick found its lag's ticker but could not price it: the lag's
    /// mid price, and why.
    Unpriced { lag: u64, lag_mid: i64, skip: TickSkip },
    /// A lag tick was offered to the offset cache; the lag's offsets after it.
    OffsetUpdated { lag: u64, result: Result<(), OffsetUpdateError>, offsets: Vec<OffsetEma> },
    Skipped(TickSkip),
}

/// A traded lag as configured: the lag, its lead, whether it trades, its
/// position limit (in units) and unit (in USD), the offset period it trades
/// on, its taker threshold, and an optional bias rate; all fixed point.
pub struct TradeAssetConfig {
    pub asset: u64,
    pub lead_asset: u64,
    pub trading: bool,
    pub pos_limit: i64,
    pub pos_unit_usd: i64,
    pub use_offset_period: String,
    pub taker_threshold: i64,
    pub bias_rate: Option<i64>,
}

impl TradeAssetConfig {
    /// The config names `x` as its lag or its lead.
    pub open spec fn names(&self, x: u64) -> bool {
        self.asset == x || self.lead_asset == x
    }

    pub open spec fn wf(&self) -> bool {
        &&& abs(self.taker_threshold as int) <= RATE_MAX
        &&& UNIT_USD_MIN <= self.pos_unit_usd <= POSITION_MAX
        &&& 0 <= self.pos_limit <= LIMIT_MAX
        &&& self.bias_rate.is_some() ==> abs(self.bias_rate.unwrap() as int) <= RATE_MAX
    }
}

/// Appends `x` unless `v` holds it already.
pub fn push_unique(v: &mut Vec<u64>, x: u64)
    requires
        distinct(old(v)@),
    ensures
        distinct(final(v)@),
        forall|y: u64| final(v)@.contains(y) <==> (old(v)@.contains(y) || y == x),
        old(v)@.contains(x) ==> final(v)@ == old(v)@,
        !old(v)@.contains(x) ==> final(v)@ == old(v)@.push(x),
{
    let mut i: usize = 0;
    while i < v.len()
        invariant
            distinct(v@),
            0 <= i <= v.len(),
            forall|j: int| 0 <= j < i ==> #[trigger] v@[j] != x,
        decreases v.len() - i,
    {
        if v[i] == x {
            proof {
                assert(v@.contains(x));
            }
            return;
        }
        i = i + 1;
    }
    let ghost before = v@;
    v.push(x);
    proof {
        assert forall|y: u64| v@.contains(y) <==> (before.contains(y) || y == x) by {
            if v@.contains(y) {
                let j = choose|j: int| 0 <= j < v@.len() && v@[j] == y;
                if j < before.len() {
                    assert(before[j] == y);
                }
            }
            if before.contains(y) {
                let j = choose|j: int| 0 <= j < before.len() && before[j] == y;
                assert(v@[j] == y);
            }
            if y == x {
                assert(v@[before.len() as int] == x);
            }
        }
    }
}

/// Whether instrument `x` is the lead or the lag of one of the first `n` configs.
pub open spec fn named_in(trade_assets: Seq<TradeAssetConfig>, n: int, x: u64) -> bool {
    exists|j: int| 0 <= j < n && (#[trigger] trade_assets[j]).names(x)
}

/// Every instrument the strategy watches, leads and lags, each once, in
/// the order the configuration first names them (lead before lag).
pub fn get_market_assets(trade_assets: &Vec<TradeAssetConfig>) -> (r: Vec<u64>)
    ensures
        distinct(r@),
        forall|x: u64| r@.contains(x) <==> named_in(trade_assets@, trade_assets.len() as int, x),
{
    let mut r: Vec<u64> = Vec::new();
    let mut i: usize = 0;
    while i < trade_assets.len()
        invariant
            0 <= i <= trade_assets.len(),
            distinct(r@),
            forall|x: u64| r@.contains(x) <==> named_in(trade_assets@, i as int, x),
        decreases trade_assets.len() - i,
    {
        let ghost before = r@;
        let c = &trade_assets[i];
        push_unique(&mut r, c.lead_asset);
        push_unique(&mut r, c.asset);
        proof {
            assert forall|x: u64| r@.contains(x) <==> named_in(trade_assets@, i as int + 1, x) by {
                if named_in(trade_assets@, i as int + 1, x) {
                    let j = choose|j: int| 0 <= j < i + 1 && (#[trigger] trade_assets@[j]).names(x);
                    if j < i {
                        assert(named_in(trade_assets@, i as int, x));
                    }
                }
                if before.contains(x) {
                    let j = choose|j: int| 0 <= j < i && (#[trigger] trade_assets@[j]).names(x);
                    assert(0 <= j < i + 1 && trade_assets@[j].names(x));
                }
                if x == c.asset || x == c.lead_asset {
                    assert(trade_assets@[i as int].names(x));
                }
            }
        }
        i = i + 1;
    }
    r
}

pub open spec fn leads_of(s: Seq<TradePair>) -> Seq<u64> {
    s.map_values(|p: TradePair| p.lead)
}

pub open spec fn lags_of(s: Seq<TradePair>) -> Seq<u64> {
    s.map_values(|p: TradePair| p.lag)
}

pub struct OffsetTakerStrategy {
    pub pairs: Vec<TradePair>,
    pub offset_cache: OffsetCache,
    pub lead_max_delay: u64,
}

impl OffsetTakerStrategy {
    pub open spec fn wf(&self) -> bool {
        &&& distinct(leads_of(self.pairs@))
        &&& distinct(lags_of(self.pairs@))
        &&& self.offset_cache.wf()
        &&& forall|i: int| 0 <= i < self.pairs.len() ==> (#[trigger] self.pairs@[i]).pricing.wf()
    }

    /// The checks of a lead tick, in order; `None` when all pass.
    pub open spec fn lead_skip(&self, base: Strategy, p: TradePair, asset: u64) -> Option<TickSkip> {
        match base.tickers.entry_of(asset) {
            None => Some(TickSkip::TickerMissing { asset }),
            Some(e) => if e.ticker.delay() > self.lead_max_delay {
                Some(TickSkip::LeadDelayed { asset, delay: e.ticker.delay() as u64 })
            } else if e.delay.delay > self.lead_max_delay {
                Some(TickSkip::LeadEmaDelayed { asset })
            } else {
                match base.tickers.entry_of(p.lag) {
                    None => Some(TickSkip::LagTickerMissing { lag: p.lag }),
                    Some(_) => match self.offset_cache.offset_for(asset, p.use_period@) {
                        None => Some(TickSkip::Theo(TheoPriceError::OffsetMissing { asset })),
                        Some(o) => if !o.init {
                            Some(TickSkip::Theo(TheoPriceError::OffsetNotInit { asset }))
                        } else {
                            match base.usd_position(p.lag) {
                                Err(err) => Some(TickSkip::Position(err)),
                                Ok(pos) => if abs(pos as int) > POSITION_MAX {
                                    Some(TickSkip::PositionOutOfRange { lag: p.lag })
                                } else if base.rule_of(p.lag).is_none() {
                                    Some(TickSkip::TradeRuleMissing { lag: p.lag })
                                } else {
                                    None
                                },
                            }
                        },
                    },
                }
            },
        }
    }

    /// The pricing request a lead tick makes once every check passes.
    pub open spec fn lead_request(&self, base: Strategy, p: TradePair, asset: u64, now_ms: u64) -> BasicLinearTakerContext {
        let lead = base.tickers.entry_of(asset).unwrap().ticker;
        let theo = taker_theo(self.offset_cache.offset_for(asset, p.use_period@).unwrap(), lead);
        BasicLinearTakerContext {
            theo_bid: theo.1 as i128,
            theo_ask: theo.0 as i128,
            ticker: base.tickers.entry_of(p.lag).unwrap().ticker,
            position_usd: base.usd_position(p.lag).unwrap() as i64,
            now_ms,
        }
    }

    fn find_pair(keys: &Vec<u64>, asset: u64) -> (r: Option<usize>)
        requires
            distinct(keys@),
        ensures
            r.is_some() == position_of(keys@, asset).is_some(),
            r.is_some() ==> r.unwrap() == position_of(keys@, asset).unwrap() && r.unwrap() < keys.len(),
    {
        let mut i: usize = 0;
        while i < keys.len()
            invariant
                distinct(keys@),
                0 <= i <= keys.len(),
                forall|j: int| 0 <= j < i ==> #[trigger] keys@[j] != asset,
            decreases keys.len() - i,
        {
            if keys[i] == asset {
                proof {
                    let c = choose|j: int| 0 <= j < keys.len() && keys@[j] == asset;
                    assert(c == i);
                }
                return Some(i);
            }
            i = i + 1;
        }
        None
    }

    fn pair_keys(&self, leads: bool) -> (r: Vec<u64>)
        ensures
            r@ == if leads {
                leads_of(self.pairs@)
            } else {
                lags_of(self.pairs@)
            },
    {
        let mut r: Vec<u64> = Vec::new();
        let mut i: usize = 0;
        while i < self.pairs.len()
            invariant
                0 <= i <= self.pairs.len(),
                r@ == if leads {
                    leads_of(self.pairs@.take(i as int))
                } else {
                    lags_of(self.pairs@.take(i as int))
                },
            decreases self.pairs.len() - i,
        {
            if leads {
                r.push(self.pairs[i].lead);
            } else {
                r.push(self.pairs[i].lag);
            }
            assert(self.pairs@.take(i as int + 1) =~= self.pairs@.take(i as int).push(self.pairs@[i as int]));
            assert(leads_of(self.pairs@.take(i as int + 1)) =~= leads_of(self.pairs@.take(i as int)).push(self.pairs@[i as int].lead));
            assert(lags_of(self.pairs@.take(i as int + 1)) =~= lags_of(self.pairs@.take(i as int)).push(self.pairs@[i as int].lag));
            i = i + 1;
        }
        assert(self.pairs@.take(self.pairs.len() as int) =~= self.pairs@);
        r
    }

    /// Handles a tick of `asset` at `now_ms`, after the shared state has taken
    /// it. A lead tick that passes its checks prices the lag; a lag tick
    /// refreshes the lag's offsets once the cache is initialised.
    pub fn on_tick(&mut self, base: &Strategy, asset: u64, now_ms: u64) -> (r: TickOutcome)
        requires
            old(self).wf(),
            base.wf(),
        ensures
            final(self).wf(),
            final(self).pairs == old(self).pairs,
            final(self).lead_max_delay == old(self).lead_max_delay,
            match position_of(leads_of(old(self).pairs@), asset) {
                Some(i) => {
                    let p = old(self).pairs@[i];
                    &&& final(self).offset_cache == old(self).offset_cache
                    &&& match old(self).lead_skip(*base, p, asset) {
                        Some(skip) => match skip {
                            TickSkip::Theo(_) | TickSkip::Position(_) | TickSkip::PositionOutOfRange { .. }
                            | TickSkip::TradeRuleMissing { .. } => {
                                let t = base.tickers.entry_of(p.lag).unwrap().ticker;
                                r == TickOutcome::Unpriced { lag: p.lag, lag_mid: ((t.ap1 + t.bp1) / 2) as i64, skip }
                            },
                            _ => r == TickOutcome::Skipped(skip),
                        },
                        None => {
                            let req = old(self).lead_request(*base, p, asset, now_ms);
                            let rule = base.rule_of(p.lag).unwrap();
                            match r {
                                TickOutcome::Priced { lag, lag_mid, report, orders } => {
                                    &&& lag == p.lag
                                    &&& lag_mid == (req.ticker.ap1 + req.ticker.bp1) / 2
                                    &&& report == p.pricing.report(req)
                                    &&& orders@ == opt_seq(p.pricing.buy_order(req, rule)) + opt_seq(
                                        p.pricing.sell_order(req, rule),
                                    )
                                },
                                _ => false,
                            }
                        },
                    }
                },
                None => match position_of(lags_of(old(self).pairs@), asset) {
                    None => r == TickOutcome::Skipped(TickSkip::NotLeadOrLag { asset })
                        && final(self).offset_cache == old(self).offset_cache,
                    Some(i) => {
                        let p = old(self).pairs@[i];
                        if !old(self).offset_cache.init {
                            r == TickOutcome::Skipped(TickSkip::CacheNotInit)
                                && final(self).offset_cache == old(self).offset_cache
                        } else if base.tickers.entry_of(p.lead).is_none() {
                            r == TickOutcome::Skipped(TickSkip::LeadTickerMissing { lead: p.lead })
                                && final(self).offset_cache == old(self).offset_cache
                        } else if base.tickers.entry_of(asset).is_none() {
                            r == TickOutcome::Skipped(TickSkip::TickerMissing { asset })
                                && final(self).offset_cache == old(self).offset_cache
                        } else {
                            match r {
                                TickOutcome::OffsetUpdated { lag, result, offsets } => {
                                    &&& lag == asset
                                    &&& OffsetCache::updated(
                                        old(self).offset_cache,
                                        final(self).offset_cache,
                                        base.tickers.entry_of(p.lead).unwrap().ticker,
                                        base.tickers.entry_of(asset).unwrap().ticker,
                                        now_ms,
                                        result,
                                    )
                                    &&& match final(self).offset_cache.resolve(asset) {
                                        Some(j) => offsets@ == final(self).offset_cache.offsets@[j]@,
                                        None => offsets@.len() == 0,
                                    }
                                },
                                _ => false,
                            }
                        }
                    },
                },
            },
    {
        let leads = self.pair_keys(true);
        let lags = self.pair_keys(false);
        match Self::find_pair(&leads, asset) {
            Some(i) => {
                let p = &self.pairs[i];
                let entry = match base.tickers.get_entry(asset) {
                    Some(e) => e,
                    None => {
                        return TickOutcome::Skipped(TickSkip::TickerMissing { asset });
                    },
                };
                proof {
                    base.tickers.lemma_entry_wf(asset);
                    base.tickers.lemma_entry_wf(p.lag);
                }
                let lead = entry.ticker;
                let delay = lead.get_delay();
                if delay > self.lead_max_delay {
                    return TickOutcome::Skipped(TickSkip::LeadDelayed { asset, delay });
                }
                if entry.delay.delay > self.lead_max_delay as i128 {
                    return TickOutcome::Skipped(TickSkip::LeadEmaDelayed { asset });
                }
                let lag_ticker = match base.tickers.get(p.lag) {
                    Some(t) => t,
                    None => {
                        return TickOutcome::Skipped(TickSkip::LagTickerMissing { lag: p.lag });
                    },
                };
                let lag_mid = lag_ticker.mid_price();
                let (theo_ask, theo_bid) = match get_theo_taker_price(&lead, p.use_period.as_str(), &self.offset_cache) {
                    Ok(t) => t,
                    Err(e) => {
                        return TickOutcome::Unpriced { lag: p.lag, lag_mid, skip: TickSkip::Theo(e) };
                    },
                };
                let position = match base.get_asset_usd_position(p.lag) {
                    Ok(pos) => pos,
                    Err(e) => {
                        return TickOutcome::Unpriced { lag: p.lag, lag_mid, skip: TickSkip::Position(e) };
                    },
                };
                if position > POSITION_MAX as i128 || position < -(POSITION_MAX as i128) {
                    return TickOutcome::Unpriced { lag: p.lag, lag_mid, skip: TickSkip::PositionOutOfRange { lag: p.lag } };
                }
                let rule = match base.get_trade_rule(p.lag) {
                    Some(rule) => rule,
                    None => {
                        return TickOutcome::Unpriced { lag: p.lag, lag_mid, skip: TickSkip::TradeRuleMissing { lag: p.lag } };
                    },
                };
                let ctx = BasicLinearTakerContext {
                    theo_bid,
                    theo_ask,
                    ticker: lag_ticker,
                    position_usd: position as i64,
                    now_ms,
                };
                proof {
                    assert(self.pairs@[i as int].pricing.wf());
                }
                let (orders, report) = p.pricing.get_taker_ctx(ctx, &rule);
                TickOutcome::Priced { lag: p.lag, lag_mid, report, orders }
            },
            None => match Self::find_pair(&lags, asset) {
                None => TickOutcome::Skipped(TickSkip::NotLeadOrLag { asset }),
                Some(i) => {
                    if !self.offset_cache.init {
                        return TickOutcome::Skipped(TickSkip::CacheNotInit);
                    }
                    let lead_asset = self.pairs[i].lead;
                    let lead = match base.tickers.get(lead_asset) {
                        Some(t) => t,
                        None => {
                            return TickOutcome::Skipped(TickSkip::LeadTickerMissing { lead: lead_asset });
                        },
                    };
                    let lag = match base.tickers.get(asset) {
                        Some(t) => t,
                        None => {
                            return TickOutcome::Skipped(TickSkip::TickerMissing { asset });
                        },
                    };
                    proof {
                        base.tickers.lemma_entry_wf(asset);
                        base.tickers.lemma_entry_wf(lead_asset);
                    }
                    let result = self.offset_cache.update(&lead, &lag, now_ms);
                    let offsets = match self.offset_cache.get_all_offset(asset) {
                        Some(v) => v,
                        None => Vec::new(),
                    };
                    TickOutcome::OffsetUpdated { lag: asset, result, offsets }
                },
            },
        }
    }

    /// A strategy with no pairs and an empty offset cache.
    pub fn new() -> (r: Self)
        ensures
            r.wf(),
            r.pairs.len() == 0,
            !r.offset_cache.init,
    {
        OffsetTakerStrategy { pairs: Vec::new(), offset_cache: OffsetCache::new(), lead_max_delay: 0 }
    }

    /// Builds one pair per traded lag and the offset grid of every lag.
    /// `warm_start[i][k]` is the saved state, if any, of lag `i` for period
    /// `offset_configs[k]`.
    pub fn on_init(
        &mut self,
        trade_assets: &Vec<TradeAssetConfig>,
        offset_configs: &Vec<OffsetEmaConfig>,
        lead_max_delay: u64,
        lag_max_delay: u64,
        lead_max_expiration: u64,
        taker_fee: i64,
        warm_start: &Vec<Vec<Option<(i128, i128, i128, i128)>>>,
    )
        requires
            forall|i: int, j: int|
                0 <= i < j < trade_assets.len() ==> trade_assets@[i].lead_asset != trade_assets@[j].lead_asset
                    && trade_assets@[i].asset != trade_assets@[j].asset,
            forall|i: int| 0 <= i < trade_assets.len() ==> (#[trigger] trade_assets@[i]).wf(),
            abs(taker_fee as int) <= RATE_MAX,
            forall|k: int|
                0 <= k < offset_configs.len() ==> is_valid_window(
                    #[trigger] offset_configs@[k].period@,
                    offset_configs@[k].intval,
                ),
            forall|k: int, m: int|
                0 <= k < m < offset_configs.len() ==> offset_configs@[k].period@ != offset_configs@[m].period@,
            warm_start.len() == trade_assets.len(),
            forall|i: int| 0 <= i < warm_start.len() ==> #[trigger] warm_start@[i].len() == offset_configs.len(),
            forall|i: int, k: int|
                0 <= i < warm_start.len() && 0 <= k < offset_configs.len() ==> warm_start_ok(
                    #[trigger] warm_start@[i]@[k],
                ),
        ensures
            final(self).wf(),
            final(self).lead_max_delay == lead_max_delay,
            final(self).offset_cache.init,
            final(self).offset_cache.lead_max_delay == lead_max_delay,
            final(self).offset_cache.lag_max_delay == lag_max_delay,
            final(self).offset_cache.lead_max_expiration == lead_max_expiration,
            final(self).offset_cache.lags.len() == trade_assets.len(),
            final(self).offset_cache.periods.len() == offset_configs.len(),
            forall|k: int| 0 <= k < offset_configs.len() ==> #[trigger] final(self).offset_cache.periods@[k]@
                == offset_configs@[k].period@,
            forall|i: int, k: int|
                0 <= i < trade_assets.len() && 0 <= k < offset_configs.len() ==> #[trigger] final(self).offset_cache.offsets@[i]@[k]
                    == OffsetEma::seeded(
                    offset_configs@[k],
                    window_length(offset_configs@[k].period@, offset_configs@[k].intval) as u64,
                    warm_start@[i]@[k],
                ),
            final(self).pairs.len() == trade_assets.len(),
            forall|i: int| 0 <= i < trade_assets.len() ==> {
                let p = #[trigger] final(self).pairs@[i];
                let c = trade_assets@[i];
                &&& p.lead == c.lead_asset
                &&& p.lag == c.asset
                &&& p.use_period@ == c.use_offset_period@
                &&& p.pricing.taker_threshold == c.taker_threshold
                &&& p.pricing.taker_fee == taker_fee
                &&& p.pricing.position_unit_usd == c.pos_unit_usd
                &&& p.pricing.position_limit == c.pos_limit
                &&& p.pricing.bias_rate == c.bias_rate
                &&& final(self).offset_cache.leads@[i] == c.lead_asset
                &&& final(self).offset_cache.lags@[i] == c.asset
            },
    {
        let mut pairs: Vec<TradePair> = Vec::new();
        let mut lead2lag: Vec<(u64, u64)> = Vec::new();
        let mut i: usize = 0;
        while i < trade_assets.len()
            invariant
                0 <= i <= trade_assets.len(),
                abs(taker_fee as int) <= RATE_MAX,
                forall|j: int| 0 <= j < trade_assets.len() ==> (#[trigger] trade_assets@[j]).wf(),
                pairs.len() == i,
                lead2lag.len() == i,
                forall|j: int| 0 <= j < i ==> {
                    let p = #[trigger] pairs@[j];
                    let c = trade_assets@[j];
                    &&& p.lead == c.lead_asset
                    &&& p.lag == c.asset
                    &&& p.use_period@ == c.use_offset_period@
                    &&& p.pricing.wf()
                    &&& p.pricing.taker_threshold == c.taker_threshold
                    &&& p.pricing.taker_fee == taker_fee
                    &&& p.pricing.position_unit_usd == c.pos_unit_usd
                    &&& p.pricing.position_limit == c.pos_limit
                    &&& p.pricing.bias_rate == c.bias_rate
                    &&& lead2lag@[j] == (c.lead_asset, c.asset)
                },
            decreases trade_assets.len() - i,
        {
            let c = &trade_assets[i];
            let pricing = BasicLinearTaker::new(
                c.taker_threshold,
                taker_fee,
                c.pos_unit_usd,
                c.pos_limit,
                c.bias_rate,
            );
            pairs.push(TradePair { lead: c.lead_asset, lag: c.asset, use_period: c.use_offset_period.clone(), pricing });
            lead2lag.push((c.lead_asset, c.asset));
            i = i + 1;
        }
        proof {
            assert forall|a: int, b: int| 0 <= a < b < pairs.len() implies leads_of(pairs@)[a] != leads_of(pairs@)[b]
                && lags_of(pairs@)[a] != lags_of(pairs@)[b] by {
                assert(pairs@[a].lead == trade_assets@[a].lead_asset);
                assert(pairs@[b].lead == trade_assets@[b].lead_asset);
            }
            assert forall|a: int, b: int| 0 <= a < b < lead2lag.len() implies lead2lag@[a].0 != lead2lag@[b].0
                && lead2lag@[a].1 != lead2lag@[b].1 by {
                assert(pairs@[a].lead == trade_assets@[a].lead_asset);
                assert(pairs@[b].lead == trade_assets@[b].lead_asset);
                assert(lead2lag@[a] == (trade_assets@[a].lead_asset, trade_assets@[a].asset));
                assert(lead2lag@[b] == (trade_assets@[b].lead_asset, trade_assets@[b].asset));
            }
        }
        let ghost ps = pairs@;
        self.offset_cache.init(&lead2lag, offset_configs, lead_max_delay, lag_max_delay, lead_max_expiration, warm_start);
        self.pairs = pairs;
        self.lead_max_delay = lead_max_delay;
        proof {
            assert forall|j: int| 0 <= j < trade_assets.len() implies self.offset_cache.leads@[j] == trade_assets@[j].lead_asset
                && self.offset_cache.lags@[j] == trade_assets@[j].asset by {
                assert(ps[j].lead == trade_assets@[j].lead_asset);
                assert(lead2lag@[j] == (trade_assets@[j].lead_asset, trade_assets@[j].asset));
            }
        }
    }

    /// The USD position limit of a traded lag: its unit times its limit.
    pub fn asset_max_pos_usd(&self, asset: u64) -> (r: Option<i128>)
        requires
            self.wf(),
        ensures
            r == match position_of(lags_of(self.pairs@), asset) {
                Some(i) => Some(self.pairs@[i].pricing.position_limit_usd),
                None => None::<i128>,
            },
    {
        let lags = self.pair_keys(false);
        match Self::find_pair(&lags, asset) {
            Some(i) => Some(self.pairs[i].pricing.position_limit_usd),
            None => None,
        }
    }
}

} // verus!
