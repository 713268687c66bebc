//! The per-instrument order manager: readiness, position limits, quote
//! cadence, and the orders and cancels that an intent turns into.

use vstd::prelude::*;
use crate::fixed::abs;

verus! {

/// An immediate-or-cancel (or market) order that a taker model wants sent.
/// A negative size sells.
#[derive(Clone, Copy, Debug, PartialEq, Eq, Structural)]
pub struct TakerContext {
    pub asset: u64,
    pub price: Option<i128>,
    pub size: i128,
    pub is_market: bool,
    pub max_usd_pos: i128,
    pub now_ms: u64,
}

/// A resting post-only quote that a maker model wants placed. A negative size sells.
#[derive(Clone, Copy, Debug, PartialEq, Eq, Structural)]
pub struct MakerContext {
    pub asset: u64,
    pub price: i128,
    pub size: i128,
    pub is_post_only: bool,
    pub is_first: bool,
    pub max_order_num: u64,
    pub order_min_price_diff: i128,
    pub max_usd_pos: i128,
    pub now_ms: u64,
}

/// A resting order as the private client reports it. A negative size sells.
#[derive(Clone, Copy, Debug, PartialEq, Eq, Structural)]
pub struct OpenOrder {
    pub id: u64,
    pub price: i128,
    pub size: i128,
}

/// How an order is to be placed.
#[derive(Clone, Copy, Debug, PartialEq, Eq, Structural)]
pub enum OrderType {
    Market,
    Ioc,
    PostOnly,
}

/// An order to hand to the private client.
#[derive(Clone, Copy, Debug, PartialEq, Eq, Structural)]
pub struct OrderRequest {
    pub asset: u64,
    pub price: Option<i128>,
    pub size: i128,
    pub order_type: OrderType,
}

/// What the caller is to do for an intent: cancel these orders (normal
/// priority), then place the order, if any.
#[derive(Clone, Debug)]
pub struct OrderActions {
    pub cancels: Vec<u64>,
    pub order: Option<OrderRequest>,
}

/// An intent that cannot be acted on.
#[derive(Clone, Copy, Debug, PartialEq, Eq, Structural)]
pub enum OmsError {
    /// The intent is for another instrument than this manager's.
    AssetMismatch { oms_asset: u64, intent_asset: u64 },
    /// A limit (non-market) intent without a price.
    MissingPrice { asset: u64 },
}

/// Buy orders rest as bids; every other order rests as an ask.
pub open spec fn is_bid(o: OpenOrder) -> bool {
    o.size > 0
}

pub open spec fn ids_of(s: Seq<OpenOrder>) -> Seq<u64> {
    s.map_values(|o: OpenOrder| o.id)
}

/// The per-instrument order manager.
pub struct Oms {
    pub asset: u64,
    pub open_bids: Vec<OpenOrder>,
    pub open_asks: Vec<OpenOrder>,
    pub pendings: Vec<u64>,
    pub canceling: Vec<u64>,
    pub current_usd_position: Option<i128>,
    pub virtual_usd_position: Option<i128>,
    pub last_quote_ms: u64,
    pub quote_intval: u64,
    pub trading: bool,
}

fn order_ids(orders: &Vec<OpenOrder>) -> (r: Vec<u64>)
    ensures
        r@ == ids_of(orders@),
{
    let mut r: Vec<u64> = Vec::new();
    let mut i: usize = 0;
    while i < orders.len()
        invariant
            0 <= i <= orders.len(),
            r@ == ids_of(orders@.take(i as int)),
        decreases orders.len() - i,
    {
        r.push(orders[i].id);
        assert(orders@.take(i as int + 1) =~= orders@.take(i as int).push(orders@[i as int]));
        assert(ids_of(orders@.take(i as int + 1)) =~= ids_of(orders@.take(i as int)).push(orders@[i as int].id));
        i = i + 1;
    }
    assert(orders@.take(orders.len() as int) =~= orders@);
    r
}

impl Oms {
    /// Nothing pending, nothing being cancelled, and a known virtual position.
    pub open spec fn is_ready(&self) -> bool {
        &&& self.pendings.len() == 0
        &&& self.canceling.len() == 0
        &&& self.virtual_usd_position.is_some()
    }

    /// Whether a post at `now_ms` keeps the quote cadence and trading is on,
    /// given whether the private client reports it safe to post.
    pub open spec fn post_allowed(&self, now_ms: u64, client_safe: bool) -> bool {
        &&& self.last_quote_ms + self.quote_intval <= now_ms
        &&& self.trading
        &&& client_safe
    }

    /// `(should_post, cancels)` of the position check: over the limit on the
    /// side of the intent, every resting order of that side is cancelled and
    /// nothing is posted.
    pub open spec fn position_verdict(&self, size: int, max_usd_pos: int) -> (bool, Seq<u64>) {
        let pos = self.virtual_usd_position.unwrap() as int;
        if size > 0 && pos > max_usd_pos {
            (false, ids_of(self.open_bids@))
        } else if size < 0 && pos < -max_usd_pos {
            (false, ids_of(self.open_asks@))
        } else {
            (true, Seq::empty())
        }
    }

    /// The first check that refuses an intent, if any.
    pub open spec fn taker_error(&self, taker: TakerContext) -> Option<OmsError> {
        if self.asset != taker.asset {
            Some(OmsError::AssetMismatch { oms_asset: self.asset, intent_asset: taker.asset })
        } else if !taker.is_market && taker.price.is_none() {
            Some(OmsError::MissingPrice { asset: taker.asset })
        } else {
            None
        }
    }

    /// The order a taker intent becomes when it is posted.
    pub open spec fn taker_request(&self, taker: TakerContext) -> OrderRequest {
        OrderRequest {
            asset: self.asset,
            price: taker.price,
            size: taker.size,
            order_type: if taker.is_market {
                OrderType::Market
            } else {
                OrderType::Ioc
            },
        }
    }

    /// Whether an accepted, ready taker intent is posted.
    pub open spec fn taker_posts(&self, taker: TakerContext, client_safe: bool) -> bool {
        &&& self.taker_error(taker).is_none()
        &&& self.is_ready()
        &&& self.position_verdict(taker.size as int, taker.max_usd_pos as int).0
        &&& self.post_allowed(taker.now_ms, client_safe)
    }

    pub fn new(asset: u64, trading: bool, quote_intval: u64) -> (r: Oms)
        ensures
            r.asset == asset,
            r.trading == trading,
            r.quote_intval == quote_intval,
            r.last_quote_ms == 0,
            r.open_bids.len() == 0,
            r.open_asks.len() == 0,
            r.pendings.len() == 0,
            r.canceling.len() == 0,
            r.current_usd_position.is_none(),
            r.virtual_usd_position.is_none(),
    {
        Oms {
            asset,
            open_bids: Vec::new(),
            open_asks: Vec::new(),
            pendings: Vec::new(),
            canceling: Vec::new(),
            current_usd_position: None,
            virtual_usd_position: None,
            last_quote_ms: 0,
            quote_intval,
            trading,
        }
    }

    /// Replaces the snapshot of orders and positions: open orders split by
    /// the sign of their size, pendings and cancels copied as they are.
    pub fn sync_position_and_orders(
        &mut self,
        current_pos: i128,
        virtual_pos: i128,
        opens: Vec<OpenOrder>,
        pendings: Vec<u64>,
        canceling: Vec<u64>,
    )
        ensures
            final(self).open_bids@ == opens@.filter(|o: OpenOrder| is_bid(o)),
            final(self).open_asks@ == opens@.filter(|o: OpenOrder| !is_bid(o)),
            final(self).pendings@ == pendings@,
            final(self).canceling@ == canceling@,
            final(self).current_usd_position == Some(current_pos),
            final(self).virtual_usd_position == Some(virtual_pos),
            final(self).asset == old(self).asset,
            final(self).last_quote_ms == old(self).last_quote_ms,
            final(self).quote_intval == old(self).quote_intval,
            final(self).trading == old(self).trading,
    {
        let mut bids: Vec<OpenOrder> = Vec::new();
        let mut asks: Vec<OpenOrder> = Vec::new();
        let mut i: usize = 0;
        while i < opens.len()
            invariant
                0 <= i <= opens.len(),
                bids@ == opens@.take(i as int).filter(|o: OpenOrder| is_bid(o)),
                asks@ == opens@.take(i as int).filter(|o: OpenOrder| !is_bid(o)),
            decreases opens.len() - i,
        {
            let o = opens[i];
            proof {
                reveal(Seq::filter);
                assert(opens@.take(i as int + 1).drop_last() =~= opens@.take(i as int));
                assert(opens@.take(i as int + 1).last() == o);
            }
            if o.size > 0 {
                bids.push(o);
            } else {
                asks.push(o);
            }
            i = i + 1;
        }
        assert(opens@.take(opens.len() as int) =~= opens@);
        self.open_bids = bids;
        self.open_asks = asks;
        self.pendings = pendings;
        self.canceling = canceling;
        self.current_usd_position = Some(current_pos);
        self.virtual_usd_position = Some(virtual_pos);
    }

    /// The position check for an intent of `size` under the limit `max_usd_pos`.
    pub fn position_check(&self, size: i128, max_usd_pos: i128) -> (r: (bool, Vec<u64>))
        requires
            self.virtual_usd_position.is_some(),
        ensures
            r.0 == self.position_verdict(size as int, max_usd_pos as int).0,
            r.1@ == self.position_verdict(size as int, max_usd_pos as int).1,
    {
        let usd_position = match self.virtual_usd_position {
            Some(p) => p,
            None => 0,
        };
        if size > 0 && usd_position > max_usd_pos {
            (false, order_ids(&self.open_bids))
        } else if size < 0 && (max_usd_pos == i128::MIN || usd_position < -max_usd_pos) {
            (false, order_ids(&self.open_asks))
        } else {
            (true, Vec::new())
        }
    }

    fn oms_is_ready(&self) -> (r: bool)
        ensures
            r == self.is_ready(),
    {
        self.pendings.len() == 0 && self.canceling.len() == 0 && self.virtual_usd_position.is_some()
    }

    fn is_post_order_safe(&self, now_ms: u64, client_safe: bool) -> (r: bool)
        ensures
            r == self.post_allowed(now_ms, client_safe),
    {
        now_ms >= self.last_quote_ms && now_ms - self.last_quote_ms >= self.quote_intval
            && self.trading && client_safe
    }

    /// The cancels `do_taker` issues for `taker`, without acting: the caller
    /// may issue them before asking the private client whether posting is safe.
    pub fn taker_cancels(&self, taker: TakerContext) -> (r: Result<Vec<u64>, OmsError>)
        ensures
            match self.taker_error(taker) {
                Some(e) => r == Err::<Vec<u64>, OmsError>(e),
                None => r.is_ok() && r.unwrap()@ == if self.is_ready() {
                    self.position_verdict(taker.size as int, taker.max_usd_pos as int).1
                } else {
                    Seq::empty()
                },
            },
    {
        if self.asset != taker.asset {
            return Err(OmsError::AssetMismatch { oms_asset: self.asset, intent_asset: taker.asset });
        }
        if !taker.is_market && taker.price.is_none() {
            return Err(OmsError::MissingPrice { asset: taker.asset });
        }
        if !self.oms_is_ready() {
            return Ok(Vec::new());
        }
        let (_, cancels) = self.position_check(taker.size, taker.max_usd_pos);
        Ok(cancels)
    }

    /// Turns a taker intent into cancels and at most one order. `client_safe`
    /// is the private client's own verdict on posting now. A manager that is
    /// not ready does nothing; the position check decides the cancels; the
    /// order goes out only when the check, the cadence, the trading switch
    /// and the client all allow it, and then the quote clock advances.
    pub fn do_taker(&mut self, taker: TakerContext, client_safe: bool) -> (r: Result<OrderActions, OmsError>)
        ensures
            match old(self).taker_error(taker) {
                Some(e) => r == Err::<OrderActions, OmsError>(e),
                None => r.is_ok(),
            },
            r.is_ok() && !old(self).is_ready() ==> r.unwrap().cancels@.len() == 0
                && r.unwrap().order.is_none(),
            r.is_ok() && old(self).is_ready() ==> r.unwrap().cancels@ == old(self).position_verdict(
                taker.size as int,
                taker.max_usd_pos as int,
            ).1,
            r.is_ok() ==> (r.unwrap().order.is_some() <==> old(self).taker_posts(taker, client_safe)),
            r.is_ok() && r.unwrap().order.is_some() ==> r.unwrap().order.unwrap() == old(self).taker_request(taker),
            final(self).last_quote_ms == if old(self).taker_posts(taker, client_safe) {
                taker.now_ms
            } else {
                old(self).last_quote_ms
            },
            final(self).asset == old(self).asset,
            final(self).open_bids == old(self).open_bids,
            final(self).open_asks == old(self).open_asks,
            final(self).pendings == old(self).pendings,
            final(self).canceling == old(self).canceling,
            final(self).current_usd_position == old(self).current_usd_position,
            final(self).virtual_usd_position == old(self).virtual_usd_position,
            final(self).quote_intval == old(self).quote_intval,
            final(self).trading == old(self).trading,
    {
        if self.asset != taker.asset {
            return Err(OmsError::AssetMismatch { oms_asset: self.asset, intent_asset: taker.asset });
        }
        if !taker.is_market && taker.price.is_none() {
            return Err(OmsError::MissingPrice { asset: taker.asset });
        }
        if !self.oms_is_ready() {
            return Ok(OrderActions { cancels: Vec::new(), order: None });
        }
        let (should_post, cancels) = self.position_check(taker.size, taker.max_usd_pos);
        if !should_post {
            return Ok(OrderActions { cancels, order: None });
        }
        if !self.is_post_order_safe(taker.now_ms, client_safe) {
            return Ok(OrderActions { cancels, order: None });
        }
        let order_type = if taker.is_market {
            OrderType::Market
        } else {
            OrderType::Ioc
        };
        let req = OrderRequest { asset: self.asset, price: taker.price, size: taker.size, order_type };
        self.last_quote_ms = taker.now_ms;
        Ok(OrderActions { cancels, order: Some(req) })
    }

    /// The resting orders on the side of an intent of `size`.
    pub open spec fn same_side(&self, size: int) -> Seq<OpenOrder> {
        if size > 0 {
            self.open_bids@
        } else {
            self.open_asks@
        }
    }

    /// A resting order of the intent's side lies within the intent's minimum
    /// price difference of its price.
    pub open spec fn maker_near_resting(&self, maker: MakerContext) -> bool {
        exists|i: int|
            0 <= i < self.same_side(maker.size as int).len() && abs(
                #[trigger] self.same_side(maker.size as int)[i].price - maker.price,
            ) <= maker.order_min_price_diff
    }

    /// Whether an accepted, ready maker intent is posted.
    pub open spec fn maker_posts(&self, maker: MakerContext, client_safe: bool) -> bool {
        &&& self.asset == maker.asset
        &&& self.is_ready()
        &&& self.position_verdict(maker.size as int, maker.max_usd_pos as int).0
        &&& !self.maker_near_resting(maker)
        &&& self.post_allowed(maker.now_ms, client_safe)
    }

    pub open spec fn maker_request(&self, maker: MakerContext) -> OrderRequest {
        OrderRequest {
            asset: self.asset,
            price: Some(maker.price),
            size: maker.size,
            order_type: OrderType::PostOnly,
        }
    }

    fn near_resting(&self, maker: &MakerContext) -> (r: bool)
        ensures
            r == self.maker_near_resting(*maker),
    {
        let side = if maker.size > 0 {
            &self.open_bids
        } else {
            &self.open_asks
        };
        let mut i: usize = 0;
        while i < side.len()
            invariant
                0 <= i <= side.len(),
                side@ == self.same_side(maker.size as int),
                forall|j: int| 0 <= j < i ==> abs(#[trigger] side@[j].price - maker.price) > maker.order_min_price_diff,
            decreases side.len() - i,
        {
            // a difference that overflows is farther than any bound
            match side[i].price.checked_sub(maker.price) {
                Some(d) => {
                    let m = maker.order_min_price_diff;
                    if m >= 0 && ((d >= 0 && d <= m) || (d < 0 && d >= -m)) {
                        return true;
                    }
                },
                None => {},
            }
            i = i + 1;
        }
        false
    }

    /// The cancels `do_maker` issues for `maker`, without acting.
    pub fn maker_cancels(&self, maker: MakerContext) -> (r: Result<Vec<u64>, OmsError>)
        ensures
            self.asset != maker.asset ==> r == Err::<Vec<u64>, OmsError>(
                OmsError::AssetMismatch { oms_asset: self.asset, intent_asset: maker.asset },
            ),
            self.asset == maker.asset ==> r.is_ok() && r.unwrap()@ == if self.is_ready() {
                self.position_verdict(maker.size as int, maker.max_usd_pos as int).1
            } else {
                Seq::empty()
            },
    {
        if self.asset != maker.asset {
            return Err(OmsError::AssetMismatch { oms_asset: self.asset, intent_asset: maker.asset });
        }
        if !self.oms_is_ready() {
            return Ok(Vec::new());
        }
        let (_, cancels) = self.position_check(maker.size, maker.max_usd_pos);
        Ok(cancels)
    }

    /// Turns a maker intent into cancels and at most one post-only quote. As
    /// for a taker intent, and besides: a resting order of the same side
    /// within the intent's minimum price difference keeps its place, and the
    /// new quote is not sent.
    pub fn do_maker(&mut self, maker: MakerContext, client_safe: bool) -> (r: Result<OrderActions, OmsError>)
        ensures
            old(self).asset != maker.asset ==> r == Err::<OrderActions, OmsError>(
                OmsError::AssetMismatch { oms_asset: old(self).asset, intent_asset: maker.asset },
            ),
            old(self).asset == maker.asset ==> r.is_ok(),
            r.is_ok() && !old(self).is_ready() ==> r.unwrap().cancels@.len() == 0
                && r.unwrap().order.is_none(),
            r.is_ok() && old(self).is_ready() ==> r.unwrap().cancels@ == old(self).position_verdict(
                maker.size as int,
                maker.max_usd_pos as int,
            ).1,
            r.is_ok() ==> (r.unwrap().order.is_some() <==> old(self).maker_posts(maker, client_safe)),
            r.is_ok() && r.unwrap().order.is_some() ==> r.unwrap().order.unwrap() == old(self).maker_request(maker),
            final(self).last_quote_ms == if old(self).maker_posts(maker, client_safe) {
                maker.now_ms
            } else {
                old(self).last_quote_ms
            },
            final(self).asset == old(self).asset,
            final(self).open_bids == old(self).open_bids,
            final(self).open_asks == old(self).open_asks,
            final(self).pendings == old(self).pendings,
            final(self).canceling == old(self).canceling,
            final(self).current_usd_position == old(self).current_usd_position,
            final(self).virtual_usd_position == old(self).virtual_usd_position,
            final(self).quote_intval == old(self).quote_intval,
            final(self).trading == old(self).trading,
    {
        if self.asset != maker.asset {
            return Err(OmsError::AssetMismatch { oms_asset: self.asset, intent_asset: maker.asset });
        }
        if !self.oms_is_ready() {
            return Ok(OrderActions { cancels: Vec::new(), order: None });
        }
        let (should_post, cancels) = self.position_check(maker.size, maker.max_usd_pos);
        if !should_post {
            return Ok(OrderActions { cancels, order: None });
        }
        if self.near_resting(&maker) {
            return Ok(OrderActions { cancels, order: None });
        }
        if !self.is_post_order_safe(maker.now_ms, client_safe) {
            return Ok(OrderActions { cancels, order: None });
        }
        let req = OrderRequest {
            asset: self.asset,
            price: Some(maker.price),
            size: maker.size,
            order_type: OrderType::PostOnly,
        };
        self.last_quote_ms = maker.now_ms;
        Ok(OrderActions { cancels, order: Some(req) })
    }
}

/// Over the limit on the side of a buy intent, the position check cancels
/// every resting bid, and neither a taker nor a maker intent of that size is
/// posted.
pub proof fn lemma_position_check_complete(oms: Oms, taker: TakerContext, maker: MakerContext, client_safe: bool)
    requires
        oms.virtual_usd_position.is_some(),
        oms.virtual_usd_position.unwrap() > taker.max_usd_pos,
        taker.size > 0,
        maker.size == taker.size,
        maker.max_usd_pos == taker.max_usd_pos,
    ensures
        !oms.position_verdict(taker.size as int, taker.max_usd_pos as int).0,
        forall|i: int|
            0 <= i < oms.open_bids.len() ==> oms.position_verdict(taker.size as int, taker.max_usd_pos as int).1.contains(
                #[trigger] oms.open_bids@[i].id,
            ),
        !oms.taker_posts(taker, client_safe),
        !oms.maker_posts(maker, client_safe),
{
    let v = oms.position_verdict(taker.size as int, taker.max_usd_pos as int);
    assert forall|i: int| 0 <= i < oms.open_bids.len() implies v.1.contains(#[trigger] oms.open_bids@[i].id) by {
        assert(ids_of(oms.open_bids@)[i] == oms.open_bids@[i].id);
    }
}

/// While orders are pending or being cancelled, or the virtual position is
/// unknown, no intent is posted (and, by the contracts of `do_taker` and
/// `do_maker`, nothing is cancelled and the quote clock stands still).
pub proof fn lemma_not_ready_is_inert(oms: Oms, taker: TakerContext, maker: MakerContext, client_safe: bool)
    requires
        oms.pendings.len() > 0 || oms.canceling.len() > 0 || oms.virtual_usd_position.is_none(),
    ensures
        !oms.taker_posts(taker, client_safe),
        !oms.maker_posts(maker, client_safe),
{
}

/// Between two posts of one manager, `now_ms` advances by at least the quote
/// interval: after a post at `t1` only another post moves the quote clock,
/// and the next post at `t2` needs `t2 >= t1 + quote_intval`.
pub proof fn lemma_quote_cadence(first: Oms, t1: u64, later: Oms, t2: u64, client_safe: bool)
    requires
        first.post_allowed(t1, client_safe),
        later.last_quote_ms == t1,
        later.quote_intval == first.quote_intval,
        later.post_allowed(t2, client_safe),
    ensures
        t2 >= t1 + first.quote_intval,
{
}

} // verus!
