//! Top-of-book snapshots.

use vstd::prelude::*;
use crate::fixed::PRICE_MAX;

verus! {

/// One level of a book side: a price and the volume resting at it.
#[derive(Clone, Copy, Debug, PartialEq, Eq, Structural)]
pub struct Level {
    pub price: i64,
    pub volume: i64,
}

/// The best level of each side of a depth snapshot, as the market bus gives it.
#[derive(Clone, Copy, Debug, PartialEq, Eq, Structural)]
pub struct Depth {
    pub asset: u64,
    pub transaction_time: u64,
    pub local_time_ns: u64,
    pub ask: Option<Level>,
    pub bid: Option<Level>,
}

/// A normalised top-of-book snapshot. `asset` is the index of the instrument
/// in the configured market list.
#[derive(Clone, Copy, Debug, PartialEq, Eq, Structural)]
pub struct Ticker {
    pub asset: u64,
    pub transaction_ms: u64,
    pub receive_ms: u64,
    pub ap1: i64,
    pub bp1: i64,
    pub av1: i64,
    pub bv1: i64,
}

impl Ticker {
    /// Received no earlier than it was made, with both prices positive and bounded.
    pub open spec fn wf(&self) -> bool {
        &&& self.transaction_ms <= self.receive_ms
        &&& 0 < self.ap1 <= PRICE_MAX
        &&& 0 < self.bp1 <= PRICE_MAX
    }

    pub open spec fn delay(&self) -> int {
        self.receive_ms - self.transaction_ms
    }

    /// A ticker is built when both sides have a level and the snapshot makes a
    /// well-formed ticker; otherwise there is none. Well formed means received
    /// no earlier than made and both prices in `(0, PRICE_MAX]`, the range of
    /// this fixed-point representation: a snapshot outside it is dropped.
    pub fn from_depth(depth: &Depth) -> (r: Option<Ticker>)
        ensures
            r.is_some() <==> (depth.ask.is_some() && depth.bid.is_some() && (Ticker {
                asset: depth.asset,
                transaction_ms: depth.transaction_time,
                receive_ms: (depth.local_time_ns / 1_000_000) as u64,
                ap1: depth.ask.unwrap().price,
                bp1: depth.bid.unwrap().price,
                av1: depth.ask.unwrap().volume,
                bv1: depth.bid.unwrap().volume,
            }).wf()),
            r.is_some() ==> r.unwrap() == (Ticker {
                asset: depth.asset,
                transaction_ms: depth.transaction_time,
                receive_ms: (depth.local_time_ns / 1_000_000) as u64,
                ap1: depth.ask.unwrap().price,
                bp1: depth.bid.unwrap().price,
                av1: depth.ask.unwrap().volume,
                bv1: depth.bid.unwrap().volume,
            }),
    {
        match (depth.ask, depth.bid) {
            (Some(ask), Some(bid)) => {
                let t = Ticker {
                    asset: depth.asset,
                    transaction_ms: depth.transaction_time,
                    receive_ms: depth.local_time_ns / 1_000_000,
                    ap1: ask.price,
                    bp1: bid.price,
                    av1: ask.volume,
                    bv1: bid.volume,
                };
                if t.transaction_ms <= t.receive_ms && 0 < t.ap1 && t.ap1 <= PRICE_MAX && 0 < t.bp1
                    && t.bp1 <= PRICE_MAX {
                    Some(t)
                } else {
                    None
                }
            },
            _ => None,
        }
    }

    /// Milliseconds between the venue's timestamp and local receipt.
    pub fn get_delay(&self) -> (r: u64)
        requires
            self.wf(),
        ensures
            r == self.delay(),
    {
        self.receive_ms - self.transaction_ms
    }

    /// The midpoint of the two best prices, rounded down to a unit.
    pub fn mid_price(&self) -> (r: i64)
        requires
            self.wf(),
        ensures
            r == (self.ap1 + self.bp1) / 2,
    {
        ((self.ap1 as i128 + self.bp1 as i128) / 2) as i64
    }

    /// Best ask less best bid.
    pub fn spread(&self) -> (r: i64)
        requires
            self.wf(),
        ensures
            r == self.ap1 - self.bp1,
    {
        self.ap1 - self.bp1
    }
}

} // verus!
