//! The state that every strategy shares: latest tickers, one order manager
//! per traded instrument, and the venue's trade rules.

use vstd::prelude::*;
use crate::oms::{is_bid, MakerContext, OmsError, OpenOrder, OrderActions, Oms, TakerContext};
use crate::offset_cache::{distinct, position_of};
use crate::ticker_cache::TickerCache;
use crate::trade_rule::TradeRule;

verus! {

/// Why a request to the shared state could not be served.
#[derive(Clone, Copy, Debug, PartialEq, Eq, Structural)]
pub enum StrategyError {
    /// No order manager for the instrument.
    OmsMissing { asset: u64 },
    /// The order manager has not yet learned its virtual position.
    PositionUnknown { asset: u64 },
    /// The order manager refused the intent.
    Oms(OmsError),
}

/// The kind of an instrument.
#[derive(Clone, Copy, Debug, PartialEq, Eq, Structural)]
pub enum AssetType {
    Spot,
    Swap,
    Future,
}

/// A traded instrument as configured: its id, its kind, and whether it trades.
#[derive(Clone, Copy, Debug, PartialEq, Eq, Structural)]
pub struct TradedAsset {
    pub asset: u64,
    pub asset_type: AssetType,
    pub trading: bool,
}

/// One order manager per traded instrument, in order; an instrument trades
/// only when both its own switch and the global one are on. Spot
/// instruments are refused: the first one met is returned.
pub fn build_oms(traded: &Vec<TradedAsset>, trading: bool, quote_intval: u64) -> (r: Result<Vec<Oms>, u64>)
    ensures
        match r {
            Ok(v) => {
                &&& forall|i: int| 0 <= i < traded.len() ==> (#[trigger] traded@[i]).asset_type != AssetType::Spot
                &&& v.len() == traded.len()
                &&& forall|i: int| 0 <= i < traded.len() ==> {
                    let o = #[trigger] v@[i];
                    &&& o.asset == traded@[i].asset
                    &&& o.trading == (trading && traded@[i].trading)
                    &&& o.quote_intval == quote_intval
                    &&& o.last_quote_ms == 0
                    &&& o.virtual_usd_position.is_none()
                    &&& o.pendings.len() == 0
                    &&& o.canceling.len() == 0
                    &&& o.open_bids.len() == 0
                    &&& o.open_asks.len() == 0
                }
            },
            Err(a) => exists|i: int|
                0 <= i < traded.len() && traded@[i].asset == a && traded@[i].asset_type == AssetType::Spot
                    && forall|j: int| 0 <= j < i ==> (#[trigger] traded@[j]).asset_type != AssetType::Spot,
        },
{
    let mut v: Vec<Oms> = Vec::new();
    let mut i: usize = 0;
    while i < traded.len()
        invariant
            0 <= i <= traded.len(),
            v.len() == i,
            forall|j: int| 0 <= j < i ==> (#[trigger] traded@[j]).asset_type != AssetType::Spot,
            forall|j: int| 0 <= j < i ==> {
                let o = #[trigger] v@[j];
                &&& o.asset == traded@[j].asset
                &&& o.trading == (trading && traded@[j].trading)
                &&& o.quote_intval == quote_intval
                &&& o.last_quote_ms == 0
                &&& o.virtual_usd_position.is_none()
                &&& o.pendings.len() == 0
                &&& o.canceling.len() == 0
                &&& o.open_bids.len() == 0
                &&& o.open_asks.len() == 0
            },
        decreases traded.len() - i,
    {
        let t = traded[i];
        if t.asset_type == AssetType::Spot {
            return Err(t.asset);
        }
        v.push(Oms::new(t.asset, trading && t.trading, quote_intval));
        i = i + 1;
    }
    Ok(v)
}

pub open spec fn oms_assets(s: Seq<Oms>) -> Seq<u64> {
    s.map_values(|o: Oms| o.asset)
}

pub open spec fn rule_assets(s: Seq<(u64, TradeRule)>) -> Seq<u64> {
    s.map_values(|r: (u64, TradeRule)| r.0)
}

pub struct Strategy {
    pub tickers: TickerCache,
    pub oms: Vec<Oms>,
    pub trade_rules: Vec<(u64, TradeRule)>,
}

impl Strategy {
    pub open spec fn wf(&self) -> bool {
        &&& self.tickers.wf()
        &&& distinct(oms_assets(self.oms@))
        &&& distinct(rule_assets(self.trade_rules@))
        &&& forall|i: int| 0 <= i < self.trade_rules.len() ==> (#[trigger] self.trade_rules@[i]).1.wf()
    }

    /// The index of the order manager of `asset`.
    pub open spec fn oms_index(&self, asset: u64) -> Option<int> {
        if exists|i: int| 0 <= i < self.oms.len() && self.oms@[i].asset == asset {
            Some(choose|i: int| 0 <= i < self.oms.len() && self.oms@[i].asset == asset)
        } else {
            None
        }
    }

    /// The index of the trade rule of `asset`.
    pub open spec fn rule_index(&self, asset: u64) -> Option<int> {
        position_of(rule_assets(self.trade_rules@), asset)
    }

    /// The trade rule of `asset`.
    pub open spec fn rule_of(&self, asset: u64) -> Option<TradeRule> {
        match self.rule_index(asset) {
            Some(i) => Some(self.trade_rules@[i].1),
            None => None,
        }
    }

    /// What `get_asset_usd_position` answers for `asset`.
    pub open spec fn usd_position(&self, asset: u64) -> Result<i128, StrategyError> {
        match self.oms_index(asset) {
            None => Err(StrategyError::OmsMissing { asset }),
            Some(i) => match self.oms@[i].virtual_usd_position {
                None => Err(StrategyError::PositionUnknown { asset }),
                Some(p) => Ok(p),
            },
        }
    }

    fn find_oms(&self, asset: u64) -> (r: Option<usize>)
        requires
            self.wf(),
        ensures
            r.is_some() == self.oms_index(asset).is_some(),
            r.is_some() ==> r.unwrap() == self.oms_index(asset).unwrap() && r.unwrap() < self.oms.len(),
    {
        let mut i: usize = 0;
        while i < self.oms.len()
            invariant
                self.wf(),
                0 <= i <= self.oms.len(),
                forall|j: int| 0 <= j < i ==> #[trigger] self.oms@[j].asset != asset,
            decreases self.oms.len() - i,
        {
            if self.oms[i].asset == asset {
                proof {
                    let c = choose|j: int| 0 <= j < self.oms.len() && self.oms@[j].asset == asset;
                    assert(oms_assets(self.oms@)[c] == self.oms@[c].asset);
                    assert(oms_assets(self.oms@)[i as int] == self.oms@[i as int].asset);
                }
                return Some(i);
            }
            i = i + 1;
        }
        None
    }

    fn find_rule(&self, asset: u64) -> (r: Option<usize>)
        requires
            self.wf(),
        ensures
            r.is_some() == self.rule_index(asset).is_some(),
            r.is_some() ==> r.unwrap() == self.rule_index(asset).unwrap() && r.unwrap() < self.trade_rules.len(),
    {
        let ghost keys = rule_assets(self.trade_rules@);
        let mut i: usize = 0;
        while i < self.trade_rules.len()
            invariant
                self.wf(),
                keys == rule_assets(self.trade_rules@),
                0 <= i <= self.trade_rules.len(),
                forall|j: int| 0 <= j < i ==> #[trigger] keys[j] != asset,
            decreases self.trade_rules.len() - i,
        {
            let key = self.trade_rules[i].0;
            assert(keys[i as int] == key);
            if key == asset {
                proof {
                    let c = choose|j: int| 0 <= j < keys.len() && keys[j] == asset;
                    assert(c == i);
                }
                return Some(i);
            }
            i = i + 1;
        }
        None
    }

    /// The trade rule of `asset`, if the venue gave one.
    pub fn get_trade_rule(&self, asset: u64) -> (r: Option<TradeRule>)
        requires
            self.wf(),
        ensures
            r == self.rule_of(asset),
            r.is_some() ==> r.unwrap().wf(),
    {
        match self.find_rule(asset) {
            Some(i) => Some(self.trade_rules[i].1),
            None => None,
        }
    }

    /// The virtual USD position of `asset`.
    pub fn get_asset_usd_position(&self, asset: u64) -> (r: Result<i128, StrategyError>)
        requires
            self.wf(),
        ensures
            r == self.usd_position(asset),
    {
        match self.find_oms(asset) {
            None => Err(StrategyError::OmsMissing { asset }),
            Some(i) => match self.oms[i].virtual_usd_position {
                None => Err(StrategyError::PositionUnknown { asset }),
                Some(p) => Ok(p),
            },
        }
    }

    /// Replaces the order and position snapshot of `asset`'s manager; false
    /// when the instrument has no manager.
    pub fn sync_order_position(
        &mut self,
        asset: u64,
        current_pos: i128,
        virtual_pos: i128,
        opens: Vec<OpenOrder>,
        pendings: Vec<u64>,
        canceling: Vec<u64>,
    ) -> (r: bool)
        requires
            old(self).wf(),
        ensures
            final(self).wf(),
            r == old(self).oms_index(asset).is_some(),
            final(self).tickers == old(self).tickers,
            final(self).trade_rules == old(self).trade_rules,
            final(self).oms.len() == old(self).oms.len(),
            r ==> {
                let i = old(self).oms_index(asset).unwrap();
                &&& final(self).oms@[i].virtual_usd_position == Some(virtual_pos)
                &&& final(self).oms@[i].current_usd_position == Some(current_pos)
                &&& final(self).oms@[i].open_bids@ == opens@.filter(|o: OpenOrder| is_bid(o))
                &&& final(self).oms@[i].open_asks@ == opens@.filter(|o: OpenOrder| !is_bid(o))
                &&& final(self).oms@[i].pendings@ == pendings@
                &&& final(self).oms@[i].canceling@ == canceling@
                &&& final(self).oms@[i].last_quote_ms == old(self).oms@[i].last_quote_ms
                &&& forall|j: int| 0 <= j < old(self).oms.len() && j != i ==> #[trigger] final(self).oms@[j] == old(self).oms@[j]
            },
            !r ==> final(self).oms == old(self).oms,
    {
        match self.find_oms(asset) {
            None => false,
            Some(i) => {
                let ghost before = self.oms@;
                let mut m = Oms::new(0, false, 0);
                self.oms.set_and_swap(i, &mut m);
                m.sync_position_and_orders(current_pos, virtual_pos, opens, pendings, canceling);
                self.oms.set_and_swap(i, &mut m);
                proof {
                    assert(oms_assets(self.oms@) =~= oms_assets(before));
                }
                true
            },
        }
    }

    /// The cancels that `do_taker` issues for `taker`, without acting.
    pub fn taker_cancels(&self, taker: TakerContext) -> (r: Result<Vec<u64>, StrategyError>)
        requires
            self.wf(),
        ensures
            match self.oms_index(taker.asset) {
                None => r == Err::<Vec<u64>, StrategyError>(StrategyError::OmsMissing { asset: taker.asset }),
                Some(i) => {
                    let o = self.oms@[i];
                    match o.taker_error(taker) {
                        Some(e) => r == Err::<Vec<u64>, StrategyError>(StrategyError::Oms(e)),
                        None => r.is_ok() && r.unwrap()@ == if o.is_ready() {
                            o.position_verdict(taker.size as int, taker.max_usd_pos as int).1
                        } else {
                            Seq::empty()
                        },
                    }
                },
            },
    {
        match self.find_oms(taker.asset) {
            None => Err(StrategyError::OmsMissing { asset: taker.asset }),
            Some(i) => match self.oms[i].taker_cancels(taker) {
                Ok(c) => Ok(c),
                Err(e) => Err(StrategyError::Oms(e)),
            },
        }
    }

    /// The cancels that `do_maker` issues for `maker`, without acting.
    pub fn maker_cancels(&self, maker: MakerContext) -> (r: Result<Vec<u64>, StrategyError>)
        requires
            self.wf(),
        ensures
            match self.oms_index(maker.asset) {
                None => r == Err::<Vec<u64>, StrategyError>(StrategyError::OmsMissing { asset: maker.asset }),
                Some(i) => {
                    let o = self.oms@[i];
                    r.is_ok() && r.unwrap()@ == if o.is_ready() {
                        o.position_verdict(maker.size as int, maker.max_usd_pos as int).1
                    } else {
                        Seq::empty()
                    }
                },
            },
    {
        match self.find_oms(maker.asset) {
            None => Err(StrategyError::OmsMissing { asset: maker.asset }),
            Some(i) => match self.oms[i].maker_cancels(maker) {
                Ok(c) => Ok(c),
                Err(e) => Err(StrategyError::Oms(e)),
            },
        }
    }

    /// Hands a taker intent to its instrument's manager.
    pub fn do_taker(&mut self, taker: TakerContext, client_safe: bool) -> (r: Result<OrderActions, StrategyError>)
        requires
            old(self).wf(),
        ensures
            final(self).wf(),
            final(self).tickers == old(self).tickers,
            final(self).trade_rules == old(self).trade_rules,
            final(self).oms.len() == old(self).oms.len(),
            match old(self).oms_index(taker.asset) {
                None => r == Err::<OrderActions, StrategyError>(StrategyError::OmsMissing { asset: taker.asset })
                    && final(self).oms == old(self).oms,
                Some(i) => {
                    let o = old(self).oms@[i];
                    &&& (o.taker_error(taker).is_some() ==> r == Err::<OrderActions, StrategyError>(StrategyError::Oms(o.taker_error(taker).unwrap())))
                    &&& (o.taker_error(taker).is_none() ==> r.is_ok())
                    &&& (r.is_ok() ==> r.unwrap().order.is_some() == o.taker_posts(taker, client_safe))
                    &&& (r.is_ok() && r.unwrap().order.is_some() ==> r.unwrap().order.unwrap() == o.taker_request(taker))
                    &&& (r.is_ok() && o.is_ready() ==> r.unwrap().cancels@ == o.position_verdict(taker.size as int, taker.max_usd_pos as int).1)
                    &&& (r.is_ok() && !o.is_ready() ==> r.unwrap().cancels@.len() == 0)
                    &&& final(self).oms@[i] == Oms { last_quote_ms: final(self).oms@[i].last_quote_ms, ..o }
                    &&& final(self).oms@[i].last_quote_ms == if o.taker_posts(taker, client_safe) {
                        taker.now_ms
                    } else {
                        o.last_quote_ms
                    }
                    &&& forall|j: int| 0 <= j < old(self).oms.len() && j != i ==> #[trigger] final(self).oms@[j] == old(self).oms@[j]
                },
            },
    {
        match self.find_oms(taker.asset) {
            None => Err(StrategyError::OmsMissing { asset: taker.asset }),
            Some(i) => {
                let ghost before = self.oms@;
                let mut m = Oms::new(0, false, 0);
                self.oms.set_and_swap(i, &mut m);
                proof {
                    assert(m == before[i as int]);
                }
                let r = m.do_taker(taker, client_safe);
                self.oms.set_and_swap(i, &mut m);
                proof {
                    assert(oms_assets(self.oms@) =~= oms_assets(before));
                }
                match r {
                    Ok(a) => Ok(a),
                    Err(e) => Err(StrategyError::Oms(e)),
                }
            },
        }
    }

    /// Hands a maker intent to its instrument's manager.
    pub fn do_maker(&mut self, maker: MakerContext, client_safe: bool) -> (r: Result<OrderActions, StrategyError>)
        requires
            old(self).wf(),
        ensures
            final(self).wf(),
            final(self).tickers == old(self).tickers,
            final(self).trade_rules == old(self).trade_rules,
            final(self).oms.len() == old(self).oms.len(),
            match old(self).oms_index(maker.asset) {
                None => r == Err::<OrderActions, StrategyError>(StrategyError::OmsMissing { asset: maker.asset })
                    && final(self).oms == old(self).oms,
                Some(i) => {
                    let o = old(self).oms@[i];
                    &&& r.is_ok()
                    &&& (r.is_ok() ==> r.unwrap().order.is_some() == o.maker_posts(maker, client_safe))
                    &&& (r.is_ok() && r.unwrap().order.is_some() ==> r.unwrap().order.unwrap() == o.maker_request(maker))
                    &&& (r.is_ok() && o.is_ready() ==> r.unwrap().cancels@ == o.position_verdict(maker.size as int, maker.max_usd_pos as int).1)
                    &&& (r.is_ok() && !o.is_ready() ==> r.unwrap().cancels@.len() == 0)
                    &&& final(self).oms@[i] == Oms { last_quote_ms: final(self).oms@[i].last_quote_ms, ..o }
                    &&& final(self).oms@[i].last_quote_ms == if o.maker_posts(maker, client_safe) {
                        maker.now_ms
                    } else {
                        o.last_quote_ms
                    }
                    &&& forall|j: int| 0 <= j < old(self).oms.len() && j != i ==> #[trigger] final(self).oms@[j] == old(self).oms@[j]
                },
            },
    {
        match self.find_oms(maker.asset) {
            None => Err(StrategyError::OmsMissing { asset: maker.asset }),
            Some(i) => {
                let ghost before = self.oms@;
                let mut m = Oms::new(0, false, 0);
                self.oms.set_and_swap(i, &mut m);
                proof {
                    assert(m == before[i as int]);
                }
                let r = m.do_maker(maker, client_safe);
                self.oms.set_and_swap(i, &mut m);
                proof {
                    assert(oms_assets(self.oms@) =~= oms_assets(before));
                }
                match r {
                    Ok(a) => Ok(a),
                    Err(e) => Err(StrategyError::Oms(e)),
                }
            },
        }
    }
}

} // verus!
