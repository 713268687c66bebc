//! The latest ticker of each tracked instrument, with its spread and delay
//! estimators. A snapshot is taken only when its venue time strictly
//! advances, so stale and repeated depth updates are dropped.

use vstd::prelude::*;
use crate::ema::{bounded, is_valid_window, window_length, DelayEma, DelayEmaConfig, SpreadEma, SpreadEmaConfig};
use crate::offset_cache::distinct;
use crate::ticker::Ticker;

verus! {

/// One instrument's latest ticker and estimators.
#[derive(Clone, Debug, PartialEq, Eq)]
pub struct TickerEntry {
    pub ticker: Ticker,
    pub spread: SpreadEma,
    pub delay: DelayEma,
}

impl TickerEntry {
    /// A copy of this entry.
    pub fn snapshot(&self) -> (r: Self)
        ensures
            r == *self,
    {
        TickerEntry { ticker: self.ticker, spread: self.spread.snapshot(), delay: self.delay.snapshot() }
    }
}

pub open spec fn assets_of(s: Seq<TickerEntry>) -> Seq<u64> {
    s.map_values(|e: TickerEntry| e.ticker.asset)
}

/// Entries keyed by asset, at most one each.
pub struct TickerCache {
    pub entries: Vec<TickerEntry>,
    pub spread_config: SpreadEmaConfig,
    pub delay_config: DelayEmaConfig,
}

impl TickerCache {
    pub open spec fn wf(&self) -> bool {
        &&& distinct(assets_of(self.entries@))
        &&& is_valid_window(self.spread_config.period@, self.spread_config.intval)
        &&& is_valid_window(self.delay_config.period@, self.delay_config.intval)
        &&& forall|i: int|
            0 <= i < self.entries.len() ==> {
                let e = #[trigger] self.entries@[i];
                e.ticker.wf() && e.spread.wf() && e.delay.wf()
            }
    }

    /// The entry of `asset`, if it has one.
    pub open spec fn entry_of(&self, asset: u64) -> Option<TickerEntry> {
        if exists|i: int| 0 <= i < self.entries.len() && self.entries@[i].ticker.asset == asset {
            Some(self.entries@[choose|i: int| 0 <= i < self.entries.len() && self.entries@[i].ticker.asset == asset])
        } else {
            None
        }
    }

    pub fn new(spread_config: SpreadEmaConfig, delay_config: DelayEmaConfig) -> (r: Self)
        requires
            is_valid_window(spread_config.period@, spread_config.intval),
            is_valid_window(delay_config.period@, delay_config.intval),
        ensures
            r.wf(),
            r.entries.len() == 0,
    {
        TickerCache { entries: Vec::new(), spread_config, delay_config }
    }

    fn find(&self, asset: u64) -> (r: Option<usize>)
        requires
            self.wf(),
        ensures
            r.is_some() == self.entry_of(asset).is_some(),
            r.is_some() ==> r.unwrap() < self.entries.len() && self.entries@[r.unwrap() as int]
                == self.entry_of(asset).unwrap(),
    {
        let mut i: usize = 0;
        while i < self.entries.len()
            invariant
                self.wf(),
                0 <= i <= self.entries.len(),
                forall|j: int| 0 <= j < i ==> #[trigger] self.entries@[j].ticker.asset != asset,
            decreases self.entries.len() - i,
        {
            if self.entries[i].ticker.asset == asset {
                proof {
                    let c = choose|j: int| 0 <= j < self.entries.len() && self.entries@[j].ticker.asset == asset;
                    assert(assets_of(self.entries@)[c] == self.entries@[c].ticker.asset);
                    assert(assets_of(self.entries@)[i as int] == self.entries@[i as int].ticker.asset);
                }
                return Some(i);
            }
            i = i + 1;
        }
        None
    }

    /// The latest ticker of `asset`.
    pub fn get(&self, asset: u64) -> (r: Option<Ticker>)
        requires
            self.wf(),
        ensures
            r == match self.entry_of(asset) {
                Some(e) => Some(e.ticker),
                None => None,
            },
    {
        match self.find(asset) {
            Some(i) => Some(self.entries[i].ticker),
            None => None,
        }
    }

    /// The entry of `asset`.
    pub fn get_entry(&self, asset: u64) -> (r: Option<TickerEntry>)
        requires
            self.wf(),
        ensures
            r == self.entry_of(asset),
    {
        match self.find(asset) {
            Some(i) => Some(self.entries[i].snapshot()),
            None => None,
        }
    }

    /// Offers a fresh snapshot at wall time `now_ms`. The first snapshot of an
    /// instrument creates its estimators (seeded from `warm_spread` and
    /// `warm_delay` when given) and feeds them; a later one is taken only when
    /// its venue time is strictly later than the cached one. Returns whether
    /// the snapshot was taken; when it was not, nothing changes.
    pub fn update_ticker(
        &mut self,
        ticker: &Ticker,
        now_ms: u64,
        warm_spread: Option<i128>,
        warm_delay: Option<i128>,
    ) -> (r: bool)
        requires
            old(self).wf(),
            ticker.wf(),
            warm_spread.is_some() ==> bounded(warm_spread.unwrap() as int),
            warm_delay.is_some() ==> bounded(warm_delay.unwrap() as int),
        ensures
            final(self).wf(),
            final(self).spread_config == old(self).spread_config,
            final(self).delay_config == old(self).delay_config,
            match old(self).entry_of(ticker.asset) {
                None => r && final(self).entry_of(ticker.asset) == Some(
                    TickerEntry {
                        ticker: *ticker,
                        spread: SpreadEma {
                            period: old(self).spread_config.period,
                            intval: old(self).spread_config.intval,
                            length: window_length(old(self).spread_config.period@, old(self).spread_config.intval) as u64,
                            last_update_ms: 0,
                            spread: match warm_spread {
                                Some(v) => v,
                                None => 0,
                            },
                            init: warm_spread.is_some(),
                        }.next(*ticker, now_ms),
                        delay: DelayEma {
                            period: old(self).delay_config.period,
                            intval: old(self).delay_config.intval,
                            length: window_length(old(self).delay_config.period@, old(self).delay_config.intval) as u64,
                            last_update_ms: 0,
                            delay: match warm_delay {
                                Some(v) => v,
                                None => 0,
                            },
                            init: warm_delay.is_some(),
                        }.next(*ticker, now_ms),
                    },
                ),
                Some(e) => if ticker.transaction_ms > e.ticker.transaction_ms {
                    r && final(self).entry_of(ticker.asset) == Some(
                        TickerEntry {
                            ticker: *ticker,
                            spread: e.spread.next(*ticker, now_ms),
                            delay: e.delay.next(*ticker, now_ms),
                        },
                    )
                } else {
                    !r && final(self).entries@ == old(self).entries@
                },
            },
            forall|a: u64| a != ticker.asset ==> #[trigger] final(self).entry_of(a) == old(self).entry_of(a),
    {
        match self.find(ticker.asset) {
            None => {
                let mut spread = SpreadEma::new(&self.spread_config, warm_spread);
                let mut delay = DelayEma::new(&self.delay_config, warm_delay);
                spread.update(ticker, now_ms);
                delay.update(ticker, now_ms);
                let ghost before = self.entries@;
                let entry = TickerEntry { ticker: *ticker, spread, delay };
                self.entries.push(entry);
                proof {
                    let n = before.len() as int;
                    assert(assets_of(self.entries@) =~= assets_of(before).push(ticker.asset));
                    assert(self.entries@[n].ticker.asset == ticker.asset);
                    let c = choose|j: int| 0 <= j < self.entries.len() && self.entries@[j].ticker.asset == ticker.asset;
                    if c != n {
                        assert(before[c].ticker.asset == ticker.asset);
                    }
                    assert forall|a: u64| a != ticker.asset implies #[trigger] self.entry_of(a) == old(self).entry_of(a) by {
                        if exists|j: int| 0 <= j < before.len() && before[j].ticker.asset == a {
                            let j = choose|j: int| 0 <= j < before.len() && before[j].ticker.asset == a;
                            assert(self.entries@[j].ticker.asset == a);
                            let c2 = choose|j: int| 0 <= j < self.entries.len() && self.entries@[j].ticker.asset == a;
                            assert(c2 < n);
                            let c1 = choose|j: int| 0 <= j < before.len() && before[j].ticker.asset == a;
                            if c1 != c2 {
                                assert(assets_of(before)[c1] == assets_of(before)[c2]);
                            }
                        } else {
                            assert forall|j: int| 0 <= j < self.entries.len() implies self.entries@[j].ticker.asset != a by {
                                if j < n {
                                    assert(self.entries@[j] == before[j]);
                                }
                            }
                        }
                    }
                }
                true
            },
            Some(i) => {
                let e = self.entries[i].snapshot();
                if ticker.transaction_ms > e.ticker.transaction_ms {
                    let mut spread = e.spread;
                    let mut delay = e.delay;
                    spread.update(ticker, now_ms);
                    delay.update(ticker, now_ms);
                    let ghost before = self.entries@;
                    self.entries.set(i, TickerEntry { ticker: *ticker, spread, delay });
                    proof {
                        assert(assets_of(self.entries@) =~= assets_of(before));
                        assert(self.entries@[i as int].ticker.asset == ticker.asset);
                        let c = choose|j: int| 0 <= j < self.entries.len() && self.entries@[j].ticker.asset == ticker.asset;
                        assert(assets_of(self.entries@)[c] == self.entries@[c].ticker.asset);
                        assert(assets_of(self.entries@)[i as int] == self.entries@[i as int].ticker.asset);
                        assert(c == i);
                        assert(self.entry_of(ticker.asset) == Some(self.entries@[i as int]));
                        assert forall|a: u64| a != ticker.asset implies #[trigger] self.entry_of(a) == old(self).entry_of(a) by {
                            if exists|j: int| 0 <= j < before.len() && before[j].ticker.asset == a {
                                let j = choose|j: int| 0 <= j < before.len() && before[j].ticker.asset == a;
                                assert(j != i);
                                assert(self.entries@[j].ticker.asset == a);
                                let c2 = choose|j: int| 0 <= j < self.entries.len() && self.entries@[j].ticker.asset == a;
                                if c2 != j {
                                    assert(assets_of(self.entries@)[c2] == assets_of(self.entries@)[j]);
                                }
                                assert(self.entries@[j] == before[j]);
                            } else {
                                assert forall|j: int| 0 <= j < self.entries.len() implies self.entries@[j].ticker.asset != a by {
                                    if j != i {
                                        assert(self.entries@[j] == before[j]);
                                    }
                                }
                            }
                        }
                    }
                    true
                } else {
                    false
                }
            },
        }
    }

    /// Every entry a lookup returns is well formed.
    pub proof fn lemma_entry_wf(&self, asset: u64)
        requires
            self.wf(),
        ensures
            self.entry_of(asset).is_some() ==> {
                let e = self.entry_of(asset).unwrap();
                e.ticker.wf() && e.spread.wf() && e.delay.wf() && e.ticker.asset == asset
            },
    {
        if self.entry_of(asset).is_some() {
            let c = choose|i: int| 0 <= i < self.entries.len() && self.entries@[i].ticker.asset == asset;
            assert(self.entries@[c].ticker.wf());
        }
    }
}

} // verus!
