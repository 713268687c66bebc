//! The new-coin maker: trades feed each instrument's model; a tick quotes
//! around the model's price once it is ready.

use vstd::prelude::*;
use crate::basic_maker::{BasicMaker, BasicMakerContext, MakerOrderReportContext, DIFF_MAX};
use crate::ema::bounded;
use crate::fixed::{abs, div_trunc, trunc_div, SCALE};
use crate::linear_taker::{LIMIT_MAX, POSITION_MAX, UNIT_USD_MIN};
use crate::new_coin::{NewCoinMakerModel, TemaDecays, Trade, LOG_MAX, MIN_BPS_MAX, MULTI_MAX};
use crate::offset_cache::{distinct, position_of};
use crate::period::{is_valid_period, period_ms_of};
use crate::strategy::{Strategy, StrategyError};
use crate::tema::TemaMs;
use crate::theo_price::THEO_MAX;

verus! {

/// One quoted instrument: its model, its pricing, and its minimum quote
/// distances in basis points and in ticks.
pub struct MakerAsset {
    pub asset: u64,
    pub max_usd_pos: i128,
    pub model: NewCoinMakerModel,
    pub pricing: BasicMaker,
    pub min_bps_diff: i64,
    pub min_tick_diff: i64,
}

/// Why a tick produced no quotes.
#[derive(Clone, Copy, Debug, PartialEq, Eq, Structural)]
pub enum QuoteSkip {
    /// The instrument is not configured.
    AssetUnknown { asset: u64 },
    /// The instrument has no cached ticker.
    TickerMissing { asset: u64 },
    /// The model has not seen enough trades.
    ModelNotReady { asset: u64 },
    /// The model's quotes are out of range.
    QuoteOutOfRange { asset: u64 },
    /// No usable position.
    Position(StrategyError),
    /// The position is beyond what the pricing model takes.
    PositionOutOfRange { asset: u64 },
    /// No trade rule for the instrument.
    TradeRuleMissing { asset: u64 },
}

/// What a tick led to: the mid price and sigma to report, and the quotes to
/// hand to the order manager.
pub enum QuoteOutcome {
    Quoted { mid_price: i64, sigma: i128, quotes: Vec<MakerOrderReportContext> },
    /// The instrument has a ticker but was not quoted: its mid price, its
    /// sigma once the model is ready, and why.
    Unquoted { mid_price: i64, sigma: Option<i128>, skip: QuoteSkip },
    Skipped(QuoteSkip),
}

/// A quoted instrument as configured; all amounts fixed point.
pub struct TradeAssetConfig {
    pub asset: u64,
    pub trading: bool,
    pub tau_p: String,
    pub tau_o: String,
    pub pos_unit_usd: i64,
    pub pos_limit: i64,
    pub sigma_multi: i64,
    pub sigma_min_bps: i64,
    pub order_min_bps_diff: i64,
    pub order_min_tick_diff: i64,
}

/// Saved `(value, last_ts)` states of the four averages of one model.
pub type TemaWarmStart = (Option<(i128, u64)>, Option<(i128, u64)>, Option<(i128, u64)>, Option<(i128, u64)>);

/// A saved `(value, last_ts)`, or `(0, 0)` when there is none.
pub open spec fn warm_or_zero(w: Option<(i128, u64)>) -> (i128, u64) {
    match w {
        Some(v) => v,
        None => (0i128, 0u64),
    }
}

pub open spec fn warm_ok(w: TemaWarmStart) -> bool {
    &&& w.0.is_some() ==> bounded(w.0.unwrap().0 as int)
    &&& w.1.is_some() ==> bounded(w.1.unwrap().0 as int)
    &&& w.2.is_some() ==> bounded(w.2.unwrap().0 as int)
    &&& w.3.is_some() ==> bounded(w.3.unwrap().0 as int)
}

impl TradeAssetConfig {
    pub open spec fn wf(&self) -> bool {
        &&& is_valid_period(self.tau_p@)
        &&& period_ms_of(self.tau_p@) > 0
        &&& is_valid_period(self.tau_o@)
        &&& period_ms_of(self.tau_o@) > 0
        &&& UNIT_USD_MIN <= self.pos_unit_usd <= POSITION_MAX
        &&& 0 <= self.pos_limit <= LIMIT_MAX
        &&& abs(self.sigma_multi as int) <= MULTI_MAX
        &&& 0 <= self.sigma_min_bps <= MIN_BPS_MAX
        &&& abs(self.order_min_bps_diff as int) <= DIFF_MAX
        &&& abs(self.order_min_tick_diff as int) <= DIFF_MAX
    }
}

fn idle_tema() -> (r: TemaMs)
    ensures
        r.wf(),
{
    TemaMs { last_ts: 0, val: 0, tau: String::new(), tau_value: 1 }
}

/// A print as the market keeps it, newest first, with the venue's trade id
/// when it has one.
#[derive(Clone, Copy, Debug, PartialEq, Eq, Structural)]
pub struct TradeRecord {
    pub id: Option<u64>,
    pub trade: Trade,
}

/// The prints newer than `start_id` in a newest-first list, oldest first,
/// and the largest id among them (`start_id` when none): the scan stops at
/// the first print whose id is not newer, and skips prints without an id.
pub open spec fn scan_new_trades(list: Seq<TradeRecord>, start_id: u64) -> (Seq<Trade>, u64)
    decreases list.len(),
{
    if list.len() == 0 {
        (Seq::empty(), start_id)
    } else {
        match list[0].id {
            None => scan_new_trades(list.drop_first(), start_id),
            Some(id) => if id > start_id {
                let rest = scan_new_trades(list.drop_first(), start_id);
                (rest.0.push(list[0].trade), if rest.1 >= id { rest.1 } else { id })
            } else {
                (Seq::empty(), start_id)
            },
        }
    }
}

proof fn lemma_scan_floor(list: Seq<TradeRecord>, start_id: u64)
    ensures
        scan_new_trades(list, start_id).1 >= start_id,
    decreases list.len(),
{
    if list.len() > 0 {
        lemma_scan_floor(list.drop_first(), start_id);
    }
}

/// Selects the prints newer than `start_id` from a newest-first list.
pub fn bk_get_trades(trade_list: &Vec<TradeRecord>, start_id: u64) -> (r: (Vec<Trade>, u64))
    ensures
        r.0@ == scan_new_trades(trade_list@, start_id).0,
        r.1 == scan_new_trades(trade_list@, start_id).1,
{
    let mut ret: Vec<Trade> = Vec::new();
    let mut last_id = start_id;
    let mut i: usize = 0;
    proof {
        assert(trade_list@.skip(0) =~= trade_list@);
        let s0 = scan_new_trades(trade_list@, start_id).0;
        assert(s0 + ret@ =~= s0);
        lemma_scan_floor(trade_list@, start_id);
    }
    while i < trade_list.len()
        invariant
            0 <= i <= trade_list.len(),
            last_id >= start_id,
            scan_new_trades(trade_list@, start_id).0 == scan_new_trades(trade_list@.skip(i as int), start_id).0 + ret@,
            scan_new_trades(trade_list@, start_id).1 == ({
                let l = scan_new_trades(trade_list@.skip(i as int), start_id).1;
                if l >= last_id { l } else { last_id }
            }),
        decreases trade_list.len() - i,
    {
        let rec = trade_list[i];
        let ghost rest = trade_list@.skip(i as int);
        proof {
            assert(rest[0] == rec);
            assert(rest.drop_first() =~= trade_list@.skip(i as int + 1));
            lemma_scan_floor(trade_list@.skip(i as int + 1), start_id);
        }
        match rec.id {
            None => {},
            Some(id) => {
                if id > start_id {
                    proof {
                        let t = scan_new_trades(trade_list@.skip(i as int + 1), start_id).0;
                        assert(t.push(rec.trade) + ret@ =~= t + seq![rec.trade].add(ret@));
                    }
                    ret.insert(0, rec.trade);
                    proof {
                        assert(ret@ =~= seq![rec.trade].add(ret@.drop_first()));
                    }
                    if id > last_id {
                        last_id = id;
                    }
                } else {
                    proof {
                        assert(scan_new_trades(rest, start_id).0 + ret@ =~= ret@);
                    }
                    return (ret, last_id);
                }
            },
        }
        i = i + 1;
    }
    proof {
        assert(trade_list@.skip(i as int) =~= Seq::<TradeRecord>::empty());
        assert(Seq::<Trade>::empty() + ret@ =~= ret@);
    }
    (ret, last_id)
}

pub open spec fn maker_assets_of(s: Seq<MakerAsset>) -> Seq<u64> {
    s.map_values(|m: MakerAsset| m.asset)
}

pub struct NewCoinMakerStrategy {
    pub assets: Vec<MakerAsset>,
}

impl NewCoinMakerStrategy {
    pub open spec fn wf(&self) -> bool {
        &&& distinct(maker_assets_of(self.assets@))
        &&& forall|i: int|
            0 <= i < self.assets.len() ==> {
                let m = #[trigger] self.assets@[i];
                &&& m.model.wf()
                &&& m.pricing.wf()
                &&& abs(m.min_bps_diff as int) <= DIFF_MAX
                &&& abs(m.min_tick_diff as int) <= DIFF_MAX
            }
    }

    pub fn new() -> (r: Self)
        ensures
            r.wf(),
            r.assets.len() == 0,
    {
        NewCoinMakerStrategy { assets: Vec::new() }
    }

    /// The checks of a tick, in order; `None` when all pass.
    pub open spec fn quote_skip(&self, base: Strategy, m: MakerAsset) -> Option<QuoteSkip> {
        let a = m.asset;
        if base.tickers.entry_of(a).is_none() {
            Some(QuoteSkip::TickerMissing { asset: a })
        } else if !m.model.ready() {
            Some(QuoteSkip::ModelNotReady { asset: a })
        } else if abs(m.model.price() + m.model.half_width()) > THEO_MAX || abs(
            m.model.price() - m.model.half_width(),
        ) > THEO_MAX {
            Some(QuoteSkip::QuoteOutOfRange { asset: a })
        } else {
            match base.usd_position(a) {
                Err(e) => Some(QuoteSkip::Position(e)),
                Ok(p) => if abs(p as int) > POSITION_MAX {
                    Some(QuoteSkip::PositionOutOfRange { asset: a })
                } else if base.rule_of(a).is_none() {
                    Some(QuoteSkip::TradeRuleMissing { asset: a })
                } else {
                    None
                },
            }
        }
    }

    /// The pricing request of a tick once every check passes.
    pub open spec fn quote_request(&self, base: Strategy, m: MakerAsset, now_ms: u64) -> BasicMakerContext {
        BasicMakerContext {
            theo_bid: (m.model.price() - m.model.half_width()) as i128,
            theo_ask: (m.model.price() + m.model.half_width()) as i128,
            ticker: base.tickers.entry_of(m.asset).unwrap().ticker,
            position_usd: base.usd_position(m.asset).unwrap() as i64,
            min_bps_diff: m.min_bps_diff,
            min_tick_diff: m.min_tick_diff,
            now_ms,
        }
    }

    fn find_asset(&self, asset: u64) -> (r: Option<usize>)
        requires
            self.wf(),
        ensures
            r.is_some() == position_of(maker_assets_of(self.assets@), asset).is_some(),
            r.is_some() ==> r.unwrap() == position_of(maker_assets_of(self.assets@), asset).unwrap()
                && r.unwrap() < self.assets.len(),
    {
        let ghost keys = maker_assets_of(self.assets@);
        let mut i: usize = 0;
        while i < self.assets.len()
            invariant
                self.wf(),
                keys == maker_assets_of(self.assets@),
                0 <= i <= self.assets.len(),
                forall|j: int| 0 <= j < i ==> #[trigger] keys[j] != asset,
            decreases self.assets.len() - i,
        {
            let a = self.assets[i].asset;
            assert(keys[i as int] == a);
            if a == asset {
                proof {
                    let c = choose|j: int| 0 <= j < keys.len() && keys[j] == asset;
                    assert(c == i);
                }
                return Some(i);
            }
            i = i + 1;
        }
        None
    }

    /// Quotes `asset` at `now_ms`: once its model is ready, a bid and an ask
    /// around the model's price, priced inside the book and sized from the
    /// position unit.
    pub fn on_tick(&self, base: &Strategy, asset: u64, now_ms: u64) -> (r: QuoteOutcome)
        requires
            self.wf(),
            base.wf(),
        ensures
            match position_of(maker_assets_of(self.assets@), asset) {
                None => r == QuoteOutcome::Skipped(QuoteSkip::AssetUnknown { asset }),
                Some(i) => {
                    let m = self.assets@[i];
                    match self.quote_skip(*base, m) {
                        Some(s) => match s {
                            QuoteSkip::TickerMissing { .. } => r == QuoteOutcome::Skipped(s),
                            _ => {
                                let t = base.tickers.entry_of(m.asset).unwrap().ticker;
                                r == QuoteOutcome::Unquoted {
                                    mid_price: ((t.ap1 + t.bp1) / 2) as i64,
                                    sigma: if m.model.ready() {
                                        Some(m.model.sigma() as i128)
                                    } else {
                                        None::<i128>
                                    },
                                    skip: s,
                                }
                            },
                        },
                        None => {
                            let req = self.quote_request(*base, m, now_ms);
                            match r {
                                QuoteOutcome::Quoted { mid_price, sigma, quotes } => {
                                    &&& mid_price == (req.ticker.ap1 + req.ticker.bp1) / 2
                                    &&& sigma == m.model.sigma()
                                    &&& quotes@ == m.pricing.quotes(req, base.rule_of(asset).unwrap())
                                },
                                _ => false,
                            }
                        },
                    }
                },
            },
    {
        let i = match self.find_asset(asset) {
            Some(i) => i,
            None => {
                return QuoteOutcome::Skipped(QuoteSkip::AssetUnknown { asset });
            },
        };
        let m = &self.assets[i];
        proof {
            assert(maker_assets_of(self.assets@)[i as int] == m.asset);
            base.tickers.lemma_entry_wf(m.asset);
        }
        let ticker = match base.tickers.get(m.asset) {
            Some(t) => t,
            None => {
                return QuoteOutcome::Skipped(QuoteSkip::TickerMissing { asset: m.asset });
            },
        };
        let mid_price = ticker.mid_price();
        if !m.model.is_ready() {
            return QuoteOutcome::Unquoted { mid_price, sigma: None, skip: QuoteSkip::ModelNotReady { asset: m.asset } };
        }
        let sigma = m.model.get_tema_sigma();
        let (theo_ask, theo_bid) = m.model.get_quote_price();
        if theo_ask > crate::theo_price::THEO_MAX || theo_ask < -crate::theo_price::THEO_MAX
            || theo_bid > crate::theo_price::THEO_MAX || theo_bid < -crate::theo_price::THEO_MAX {
            return QuoteOutcome::Unquoted { mid_price, sigma: Some(sigma), skip: QuoteSkip::QuoteOutOfRange { asset: m.asset } };
        }
        let position = match base.get_asset_usd_position(m.asset) {
            Ok(p) => p,
            Err(e) => {
                return QuoteOutcome::Unquoted { mid_price, sigma: Some(sigma), skip: QuoteSkip::Position(e) };
            },
        };
        if position > POSITION_MAX as i128 || position < -(POSITION_MAX as i128) {
            return QuoteOutcome::Unquoted { mid_price, sigma: Some(sigma), skip: QuoteSkip::PositionOutOfRange { asset: m.asset } };
        }
        let rule = match base.get_trade_rule(m.asset) {
            Some(rule) => rule,
            None => {
                return QuoteOutcome::Unquoted { mid_price, sigma: Some(sigma), skip: QuoteSkip::TradeRuleMissing { asset: m.asset } };
            },
        };
        let ctx = BasicMakerContext {
            theo_bid,
            theo_ask,
            ticker,
            position_usd: position as i64,
            min_bps_diff: m.min_bps_diff,
            min_tick_diff: m.min_tick_diff,
            now_ms,
        };
        let (quotes, _) = m.pricing.get_maker_ctx(ctx, &rule);
        QuoteOutcome::Quoted { mid_price, sigma, quotes }
    }

    /// Builds each configured instrument's model, resumed from its saved
    /// states, and its pricing.
    pub fn on_init(&mut self, trade_assets: &Vec<TradeAssetConfig>, warm_start: &Vec<TemaWarmStart>)
        requires
            forall|i: int, j: int| 0 <= i < j < trade_assets.len() ==> trade_assets@[i].asset != trade_assets@[j].asset,
            forall|i: int| 0 <= i < trade_assets.len() ==> (#[trigger] trade_assets@[i]).wf(),
            warm_start.len() == trade_assets.len(),
            forall|i: int| 0 <= i < warm_start.len() ==> warm_ok(#[trigger] warm_start@[i]),
        ensures
            final(self).wf(),
            final(self).assets.len() == trade_assets.len(),
            forall|i: int| 0 <= i < trade_assets.len() ==> {
                let m = #[trigger] final(self).assets@[i];
                let c = trade_assets@[i];
                &&& m.asset == c.asset
                &&& m.max_usd_pos == div_trunc(c.pos_unit_usd * c.pos_limit, SCALE as int)
                &&& m.model.asset == c.asset
                &&& m.model.sigma_multi == c.sigma_multi
                &&& m.model.sigma_min_bps == c.sigma_min_bps
                &&& m.model.value_tema.tau@ == c.tau_p@ && m.model.volume_tema.tau@ == c.tau_p@
                &&& m.model.value_diff_tema.tau@ == c.tau_o@ && m.model.volume_diff_tema.tau@ == c.tau_o@
                &&& m.model.value_tema.tau_value == period_ms_of(c.tau_p@)
                &&& m.model.value_diff_tema.tau_value == period_ms_of(c.tau_o@)
                &&& (m.model.value_tema.val, m.model.value_tema.last_ts) == warm_or_zero(warm_start@[i].0)
                &&& (m.model.volume_tema.val, m.model.volume_tema.last_ts) == warm_or_zero(warm_start@[i].1)
                &&& (m.model.value_diff_tema.val, m.model.value_diff_tema.last_ts) == warm_or_zero(warm_start@[i].2)
                &&& (m.model.volume_diff_tema.val, m.model.volume_diff_tema.last_ts) == warm_or_zero(warm_start@[i].3)
                &&& m.pricing.position_unit_usd == c.pos_unit_usd
                &&& m.min_bps_diff == c.order_min_bps_diff
                &&& m.min_tick_diff == c.order_min_tick_diff
            },
    {
        let mut assets: Vec<MakerAsset> = Vec::new();
        let mut i: usize = 0;
        while i < trade_assets.len()
            invariant
                0 <= i <= trade_assets.len(),
                warm_start.len() == trade_assets.len(),
                forall|j: int| 0 <= j < trade_assets.len() ==> (#[trigger] trade_assets@[j]).wf(),
                forall|j: int| 0 <= j < warm_start.len() ==> warm_ok(#[trigger] warm_start@[j]),
                assets.len() == i,
                forall|j: int| 0 <= j < i ==> {
                    let m = #[trigger] assets@[j];
                    let c = trade_assets@[j];
                    &&& m.asset == c.asset
                    &&& m.max_usd_pos == div_trunc(c.pos_unit_usd * c.pos_limit, SCALE as int)
                    &&& m.model.asset == c.asset
                    &&& m.model.sigma_multi == c.sigma_multi
                    &&& m.model.sigma_min_bps == c.sigma_min_bps
                    &&& m.model.value_tema.tau@ == c.tau_p@ && m.model.volume_tema.tau@ == c.tau_p@
                    &&& m.model.value_diff_tema.tau@ == c.tau_o@ && m.model.volume_diff_tema.tau@ == c.tau_o@
                    &&& m.model.value_tema.tau_value == period_ms_of(c.tau_p@)
                    &&& m.model.value_diff_tema.tau_value == period_ms_of(c.tau_o@)
                    &&& (m.model.value_tema.val, m.model.value_tema.last_ts) == warm_or_zero(warm_start@[j].0)
                    &&& (m.model.volume_tema.val, m.model.volume_tema.last_ts) == warm_or_zero(warm_start@[j].1)
                    &&& (m.model.value_diff_tema.val, m.model.value_diff_tema.last_ts) == warm_or_zero(warm_start@[j].2)
                    &&& (m.model.volume_diff_tema.val, m.model.volume_diff_tema.last_ts) == warm_or_zero(warm_start@[j].3)
                    &&& m.pricing.position_unit_usd == c.pos_unit_usd
                    &&& m.min_bps_diff == c.order_min_bps_diff
                    &&& m.min_tick_diff == c.order_min_tick_diff
                    &&& m.model.wf()
                    &&& m.pricing.wf()
                    &&& abs(m.min_bps_diff as int) <= DIFF_MAX
                    &&& abs(m.min_tick_diff as int) <= DIFF_MAX
                },
            decreases trade_assets.len() - i,
        {
            let c = &trade_assets[i];
            let model = NewCoinMakerModel::new(
                c.asset,
                c.tau_p.as_str(),
                c.tau_o.as_str(),
                c.sigma_multi,
                c.sigma_min_bps,
                warm_start[i],
            );
            let pricing = BasicMaker::new(c.pos_unit_usd, c.pos_limit);
            assert(0 <= c.pos_unit_usd as i128 * c.pos_limit as i128
                <= 100_000_000_000_000_000_000_000_000_000) by (nonlinear_arith)
                requires
                    0 < c.pos_unit_usd <= 100_000_000_000_000_000,
                    0 <= c.pos_limit <= 1_000_000_000_000,
            ;
            let max_usd_pos = trunc_div(c.pos_unit_usd as i128 * c.pos_limit as i128, SCALE);
            assets.push(MakerAsset {
                asset: c.asset,
                max_usd_pos,
                model,
                pricing,
                min_bps_diff: c.order_min_bps_diff,
                min_tick_diff: c.order_min_tick_diff,
            });
            i = i + 1;
        }
        proof {
            assert forall|a: int, b: int| 0 <= a < b < assets.len() implies maker_assets_of(assets@)[a] != maker_assets_of(assets@)[b] by {
                assert(assets@[a].asset == trade_assets@[a].asset);
                assert(assets@[b].asset == trade_assets@[b].asset);
            }
        }
        self.assets = assets;
    }

    /// Feeds one trade of `asset` to its model (see `NewCoinMakerModel::update`);
    /// false when the instrument is not configured.
    pub fn on_trade(&mut self, asset: u64, trade: &Trade, decays: &TemaDecays, log_ratio: i128) -> (r: bool)
        requires
            old(self).wf(),
            trade.wf(),
            decays.wf(),
            abs(log_ratio as int) <= LOG_MAX,
        ensures
            final(self).wf(),
            r == position_of(maker_assets_of(old(self).assets@), asset).is_some(),
            final(self).assets.len() == old(self).assets.len(),
            maker_assets_of(final(self).assets@) == maker_assets_of(old(self).assets@),
            r ==> {
                let i = position_of(maker_assets_of(old(self).assets@), asset).unwrap();
                &&& NewCoinMakerModel::fed(old(self).assets@[i].model, final(self).assets@[i].model, *trade, *decays, log_ratio)
                &&& final(self).assets@[i].pricing == old(self).assets@[i].pricing
                &&& final(self).assets@[i].min_bps_diff == old(self).assets@[i].min_bps_diff
                &&& final(self).assets@[i].min_tick_diff == old(self).assets@[i].min_tick_diff
                &&& forall|j: int| 0 <= j < old(self).assets.len() && j != i ==> #[trigger] final(self).assets@[j] == old(self).assets@[j]
            },
            !r ==> final(self).assets == old(self).assets,
    {
        match self.find_asset(asset) {
            None => false,
            Some(i) => {
                let ghost before = self.assets@;
                let mut m = MakerAsset {
                    asset: 0,
                    max_usd_pos: 0,
                    model: NewCoinMakerModel {
                        asset: 0,
                        value_tema: idle_tema(),
                        volume_tema: idle_tema(),
                        value_diff_tema: idle_tema(),
                        volume_diff_tema: idle_tema(),
                        sigma_multi: 0,
                        sigma_min_bps: 0,
                    },
                    pricing: BasicMaker { position_unit_usd: UNIT_USD_MIN, position_limit_usd: 0 },
                    min_bps_diff: 0,
                    min_tick_diff: 0,
                };
                self.assets.set_and_swap(i, &mut m);
                proof {
                    assert(m == before[i as int]);
                }
                m.model.update(trade, decays, log_ratio);
                self.assets.set_and_swap(i, &mut m);
                proof {
                    assert(maker_assets_of(self.assets@) =~= maker_assets_of(before));
                    assert forall|j: int| 0 <= j < self.assets.len() implies ({
                        let m = #[trigger] self.assets@[j];
                        &&& m.model.wf()
                        &&& m.pricing.wf()
                        &&& abs(m.min_bps_diff as int) <= DIFF_MAX
                        &&& abs(m.min_tick_diff as int) <= DIFF_MAX
                    }) by {
                        if j != i {
                            assert(self.assets@[j] == before[j]);
                        }
                    }
                }
                true
            },
        }
    }

    /// The USD position limit of a quoted instrument: its unit times its limit.
    pub fn asset_max_pos_usd(&self, asset: u64) -> (r: Option<i128>)
        requires
            self.wf(),
        ensures
            r == match position_of(maker_assets_of(self.assets@), asset) {
                Some(i) => Some(self.assets@[i].max_usd_pos),
                None => None::<i128>,
            },
    {
        match self.find_asset(asset) {
            Some(i) => Some(self.assets[i].max_usd_pos),
            None => None,
        }
    }
}

} // verus!
