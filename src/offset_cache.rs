//! Per-lag offset estimators, one for each configured period, with the
//! freshness gates that guard their updates.

use vstd::prelude::*;
use crate::ema::{is_valid_window, warm_start_ok, window_length, OffsetEma, OffsetEmaConfig};
use crate::ticker::Ticker;

verus! {

/// Why an offset update was refused.
#[derive(Clone, Copy, Debug, PartialEq, Eq, Structural)]
pub enum OffsetUpdateError {
    /// The lead tick arrived later than `lead_max_delay` after it was made.
    LeadDelay { asset: u64, delay: u64 },
    /// The lag tick arrived later than `lag_max_delay` after it was made.
    LagDelay { asset: u64, delay: u64 },
    /// The lead tick was received more than `lead_max_expiration` ms ago.
    LeadExpired { age: u64 },
    /// The lag instrument has no estimators in this cache.
    UnknownLag { asset: u64 },
}

pub open spec fn distinct(s: Seq<u64>) -> bool {
    forall|i: int, j: int| 0 <= i < j < s.len() ==> s[i] != s[j]
}

pub open spec fn distinct_labels(s: Seq<String>) -> bool {
    forall|i: int, j: int| 0 <= i < j < s.len() ==> s[i]@ != s[j]@
}

pub open spec fn position_of(s: Seq<u64>, x: u64) -> Option<int> {
    if exists|i: int| 0 <= i < s.len() && s[i] == x {
        Some(choose|i: int| 0 <= i < s.len() && s[i] == x)
    } else {
        None
    }
}

pub open spec fn label_position(s: Seq<String>, label: Seq<char>) -> Option<int> {
    if exists|i: int| 0 <= i < s.len() && s[i]@ == label {
        Some(choose|i: int| 0 <= i < s.len() && s[i]@ == label)
    } else {
        None
    }
}

/// Lead/lag pairs: pair `i` maps `leads[i]` to `lags[i]`, and `offsets[i][k]`
/// is the estimator of lag `i` for period `periods[k]`.
pub struct OffsetCache {
    pub periods: Vec<String>,
    pub leads: Vec<u64>,
    pub lags: Vec<u64>,
    pub offsets: Vec<Vec<OffsetEma>>,
    pub lead_max_delay: u64,
    pub lag_max_delay: u64,
    pub lead_max_expiration: u64,
    pub init: bool,
}

fn idle_offset() -> (r: OffsetEma) {
    OffsetEma { period: String::new(), intval: 1, length: 1, last_update_ms: 0, b2b: 0, b2a: 0, a2b: 0, a2a: 0, init: false }
}

fn find_id(v: &Vec<u64>, x: u64) -> (r: Option<usize>)
    ensures
        match r {
            Some(i) => i < v.len() && v@[i as int] == x,
            None => forall|i: int| 0 <= i < v.len() ==> v@[i] != x,
        },
{
    let mut i: usize = 0;
    while i < v.len()
        invariant
            0 <= i <= v.len(),
            forall|j: int| 0 <= j < i ==> v@[j] != x,
        decreases v.len() - i,
    {
        if v[i] == x {
            return Some(i);
        }
        i = i + 1;
    }
    None
}

fn find_label(v: &Vec<String>, label: &str) -> (r: Option<usize>)
    ensures
        match r {
            Some(i) => i < v.len() && v@[i as int]@ == label@,
            None => forall|i: int| 0 <= i < v.len() ==> v@[i]@ != label@,
        },
{
    let wanted = label.to_owned();
    let mut i: usize = 0;
    while i < v.len()
        invariant
            0 <= i <= v.len(),
            wanted@ == label@,
            forall|j: int| 0 <= j < i ==> v@[j]@ != label@,
        decreases v.len() - i,
    {
        if v[i] == wanted {
            return Some(i);
        }
        i = i + 1;
    }
    None
}

impl OffsetCache {
    pub open spec fn wf(&self) -> bool {
        &&& self.leads.len() == self.lags.len()
        &&& self.lags.len() == self.offsets.len()
        &&& distinct(self.leads@)
        &&& distinct(self.lags@)
        &&& distinct_labels(self.periods@)
        &&& forall|i: int|
            0 <= i < self.offsets.len() ==> #[trigger] self.offsets@[i].len() == self.periods.len()
        &&& forall|i: int, k: int|
            0 <= i < self.offsets.len() && 0 <= k < self.periods.len()
                ==> (#[trigger] self.offsets@[i]@[k]).wf()
    }

    /// The pair that `asset` names: as a lag if it is one, else as a lead.
    pub open spec fn resolve(&self, asset: u64) -> Option<int> {
        match position_of(self.lags@, asset) {
            Some(i) => Some(i),
            None => position_of(self.leads@, asset),
        }
    }

    /// The estimator of the pair that `asset` names, for period `period`.
    pub open spec fn offset_for(&self, asset: u64, period: Seq<char>) -> Option<OffsetEma> {
        match (self.resolve(asset), label_position(self.periods@, period)) {
            (Some(i), Some(k)) => Some(self.offsets@[i]@[k]),
            _ => None,
        }
    }

    /// The outcome of the four gates of an update, in order; on success, the
    /// pair of the lag.
    pub open spec fn gate(&self, lead: Ticker, lag: Ticker, now_ms: u64) -> Result<int, OffsetUpdateError> {
        if lead.delay() > self.lead_max_delay {
            Err(OffsetUpdateError::LeadDelay { asset: lead.asset, delay: lead.delay() as u64 })
        } else if lag.delay() > self.lag_max_delay {
            Err(OffsetUpdateError::LagDelay { asset: lag.asset, delay: lag.delay() as u64 })
        } else if now_ms - lead.receive_ms > self.lead_max_expiration {
            Err(OffsetUpdateError::LeadExpired { age: (now_ms - lead.receive_ms) as u64 })
        } else {
            match position_of(self.lags@, lag.asset) {
                Some(i) => Ok(i),
                None => Err(OffsetUpdateError::UnknownLag { asset: lag.asset }),
            }
        }
    }

    /// `after` and `r` are what an update of `before` from `(lead, lag)` at
    /// `now_ms` leaves and returns: on a refusal, the reason and no change;
    /// otherwise every period of the lag's pair takes the sample and nothing
    /// else changes.
    pub open spec fn updated(
        before: OffsetCache,
        after: OffsetCache,
        lead: Ticker,
        lag: Ticker,
        now_ms: u64,
        r: Result<(), OffsetUpdateError>,
    ) -> bool {
        match before.gate(lead, lag, now_ms) {
            Err(e) => r == Err::<(), OffsetUpdateError>(e) && after == before,
            Ok(i) => {
                &&& r is Ok
                &&& after.periods == before.periods
                &&& after.leads == before.leads
                &&& after.lags == before.lags
                &&& after.lead_max_delay == before.lead_max_delay
                &&& after.lag_max_delay == before.lag_max_delay
                &&& after.lead_max_expiration == before.lead_max_expiration
                &&& after.init == before.init
                &&& after.offsets.len() == before.offsets.len()
                &&& forall|j: int|
                    0 <= j < before.offsets.len() && j != i ==> #[trigger] after.offsets@[j]
                        == before.offsets@[j]
                &&& after.offsets@[i].len() == before.offsets@[i].len()
                &&& forall|k: int|
                    0 <= k < before.offsets@[i].len() ==> #[trigger] after.offsets@[i]@[k]
                        == before.offsets@[i]@[k].next(lead, lag, now_ms)
            },
        }
    }

    /// An empty cache, not yet initialised.
    pub fn new() -> (r: Self)
        ensures
            r.wf(),
            !r.init,
            r.lags.len() == 0,
            r.periods.len() == 0,
    {
        OffsetCache {
            periods: Vec::new(),
            leads: Vec::new(),
            lags: Vec::new(),
            offsets: Vec::new(),
            lead_max_delay: 0,
            lag_max_delay: 0,
            lead_max_expiration: 0,
            init: false,
        }
    }

    /// Builds the period grid of every lag. `warm_start[i][k]` is the saved
    /// state, if any, of pair `i` for period `configs[k]`.
    pub fn init(
        &mut self,
        lead2lag: &Vec<(u64, u64)>,
        configs: &Vec<OffsetEmaConfig>,
        lead_max_delay: u64,
        lag_max_delay: u64,
        lead_max_expiration: u64,
        warm_start: &Vec<Vec<Option<(i128, i128, i128, i128)>>>,
    )
        requires
            forall|i: int, j: int|
                0 <= i < j < lead2lag.len() ==> lead2lag@[i].0 != lead2lag@[j].0
                    && lead2lag@[i].1 != lead2lag@[j].1,
            forall|k: int|
                0 <= k < configs.len() ==> is_valid_window(
                    #[trigger] configs@[k].period@,
                    configs@[k].intval,
                ),
            forall|k: int, m: int|
                0 <= k < m < configs.len() ==> configs@[k].period@ != configs@[m].period@,
            warm_start.len() == lead2lag.len(),
            forall|i: int| 0 <= i < warm_start.len() ==> #[trigger] warm_start@[i].len() == configs.len(),
            forall|i: int, k: int|
                0 <= i < warm_start.len() && 0 <= k < configs.len() ==> warm_start_ok(
                    #[trigger] warm_start@[i]@[k],
                ),
        ensures
            final(self).wf(),
            final(self).init,
            final(self).lead_max_delay == lead_max_delay,
            final(self).lag_max_delay == lag_max_delay,
            final(self).lead_max_expiration == lead_max_expiration,
            final(self).lags.len() == lead2lag.len(),
            forall|i: int|
                0 <= i < lead2lag.len() ==> #[trigger] final(self).leads@[i] == lead2lag@[i].0,
            forall|i: int| 0 <= i < lead2lag.len() ==> #[trigger] final(self).lags@[i] == lead2lag@[i].1,
            final(self).periods.len() == configs.len(),
            forall|k: int| 0 <= k < configs.len() ==> #[trigger] final(self).periods@[k]@ == configs@[k].period@,
            forall|i: int, k: int|
                0 <= i < lead2lag.len() && 0 <= k < configs.len() ==> #[trigger] final(self).offsets@[i]@[k]
                    == OffsetEma::seeded(
                    configs@[k],
                    window_length(configs@[k].period@, configs@[k].intval) as u64,
                    warm_start@[i]@[k],
                ),
    {
        let mut periods: Vec<String> = Vec::new();
        let mut k: usize = 0;
        while k < configs.len()
            invariant
                0 <= k <= configs.len(),
                periods.len() == k,
                forall|m: int| 0 <= m < k ==> #[trigger] periods@[m]@ == configs@[m].period@,
            decreases configs.len() - k,
        {
            periods.push(configs[k].period.clone());
            k = k + 1;
        }
        let mut leads: Vec<u64> = Vec::new();
        let mut lags: Vec<u64> = Vec::new();
        let mut offsets: Vec<Vec<OffsetEma>> = Vec::new();
        let mut i: usize = 0;
        while i < lead2lag.len()
            invariant
                0 <= i <= lead2lag.len(),
                warm_start.len() == lead2lag.len(),
                forall|a: int| 0 <= a < warm_start.len() ==> #[trigger] warm_start@[a].len() == configs.len(),
                forall|a: int, b: int|
                    0 <= a < warm_start.len() && 0 <= b < configs.len() ==> warm_start_ok(
                        #[trigger] warm_start@[a]@[b],
                    ),
                forall|b: int|
                    0 <= b < configs.len() ==> is_valid_window(
                        #[trigger] configs@[b].period@,
                        configs@[b].intval,
                    ),
                leads.len() == i,
                lags.len() == i,
                offsets.len() == i,
                forall|a: int| 0 <= a < i ==> #[trigger] leads@[a] == lead2lag@[a].0,
                forall|a: int| 0 <= a < i ==> #[trigger] lags@[a] == lead2lag@[a].1,
                forall|a: int| 0 <= a < i ==> #[trigger] offsets@[a].len() == configs.len(),
                forall|a: int, b: int|
                    0 <= a < i && 0 <= b < configs.len() ==> #[trigger] offsets@[a]@[b] == OffsetEma::seeded(
                    configs@[b],
                        window_length(configs@[b].period@, configs@[b].intval) as u64,
                        warm_start@[a]@[b],
                    ),
                forall|a: int, b: int|
                    0 <= a < i && 0 <= b < configs.len() ==> (#[trigger] offsets@[a]@[b]).wf(),
            decreases lead2lag.len() - i,
        {
            let mut row: Vec<OffsetEma> = Vec::new();
            let mut k: usize = 0;
            while k < configs.len()
                invariant
                    0 <= i < lead2lag.len(),
                    warm_start.len() == lead2lag.len(),
                    warm_start@[i as int].len() == configs.len(),
                    forall|b: int| 0 <= b < configs.len() ==> warm_start_ok(#[trigger] warm_start@[i as int]@[b]),
                    forall|b: int|
                        0 <= b < configs.len() ==> is_valid_window(
                            #[trigger] configs@[b].period@,
                            configs@[b].intval,
                        ),
                    0 <= k <= configs.len(),
                    row.len() == k,
                    forall|b: int|
                        0 <= b < k ==> #[trigger] row@[b] == OffsetEma::seeded(
                    configs@[b],
                            window_length(configs@[b].period@, configs@[b].intval) as u64,
                            warm_start@[i as int]@[b],
                        ),
                    forall|b: int| 0 <= b < k ==> (#[trigger] row@[b]).wf(),
                decreases configs.len() - k,
            {
                let e = OffsetEma::new(&configs[k], warm_start[i][k]);
                row.push(e);
                k = k + 1;
            }
            leads.push(lead2lag[i].0);
            lags.push(lead2lag[i].1);
            offsets.push(row);
            i = i + 1;
        }
        assert(distinct_labels(periods@)) by {
            assert forall|a: int, b: int| 0 <= a < b < periods.len() implies periods@[a]@ != periods@[b]@ by {
                assert(periods@[a]@ == configs@[a].period@);
                assert(periods@[b]@ == configs@[b].period@);
            }
        }
        assert(distinct(leads@)) by {
            assert forall|a: int, b: int| 0 <= a < b < leads.len() implies leads@[a] != leads@[b] by {
                assert(leads@[a] == lead2lag@[a].0);
                assert(leads@[b] == lead2lag@[b].0);
            }
        }
        assert(distinct(lags@)) by {
            assert forall|a: int, b: int| 0 <= a < b < lags.len() implies lags@[a] != lags@[b] by {
                assert(lags@[a] == lead2lag@[a].1);
                assert(lags@[b] == lead2lag@[b].1);
            }
        }
        self.periods = periods;
        self.leads = leads;
        self.lags = lags;
        self.offsets = offsets;
        self.lead_max_delay = lead_max_delay;
        self.lag_max_delay = lag_max_delay;
        self.lead_max_expiration = lead_max_expiration;
        self.init = true;
    }

    /// Updates every period of the lag from `(lead, lag)` at `now_ms`, once
    /// the four gates pass: lead delay, lag delay, lead age, known lag. On a
    /// refusal nothing changes.
    pub fn update(&mut self, lead: &Ticker, lag: &Ticker, now_ms: u64) -> (r: Result<(), OffsetUpdateError>)
        requires
            old(self).wf(),
            lead.wf(),
            lag.wf(),
        ensures
            final(self).wf(),
            OffsetCache::updated(*old(self), *final(self), *lead, *lag, now_ms, r),
    {
        let lead_delay = lead.get_delay();
        if lead_delay > self.lead_max_delay {
            return Err(OffsetUpdateError::LeadDelay { asset: lead.asset, delay: lead_delay });
        }
        let lag_delay = lag.get_delay();
        if lag_delay > self.lag_max_delay {
            return Err(OffsetUpdateError::LagDelay { asset: lag.asset, delay: lag_delay });
        }
        if now_ms > lead.receive_ms && now_ms - lead.receive_ms > self.lead_max_expiration {
            return Err(OffsetUpdateError::LeadExpired { age: now_ms - lead.receive_ms });
        }
        let found = find_id(&self.lags, lag.asset);
        let i = match found {
            Some(i) => i,
            None => {
                return Err(OffsetUpdateError::UnknownLag { asset: lag.asset });
            },
        };
        proof {
            let c = choose|j: int| 0 <= j < self.lags.len() && self.lags@[j] == lag.asset;
            assert(c == i);
        }
        let ghost before = self.offsets@[i as int];
        let mut row: Vec<OffsetEma> = Vec::new();
        self.offsets.set_and_swap(i, &mut row);
        let mut k: usize = 0;
        while k < row.len()
            invariant
                0 <= k <= row.len(),
                row.len() == before.len(),
                before.len() == self.periods.len(),
                lead.wf(),
                lag.wf(),
                forall|b: int| 0 <= b < before.len() ==> (#[trigger] before[b]).wf(),
                forall|b: int| 0 <= b < k ==> #[trigger] row@[b] == before[b].next(*lead, *lag, now_ms),
                forall|b: int| k <= b < row.len() ==> #[trigger] row@[b] == before[b],
                forall|b: int| 0 <= b < k ==> (#[trigger] row@[b]).wf(),
            decreases row.len() - k,
        {
            let mut e = idle_offset();
            row.set_and_swap(k, &mut e);
            e.update(lead, lag, now_ms);
            row.set_and_swap(k, &mut e);
            k = k + 1;
        }
        self.offsets.set_and_swap(i, &mut row);
        Ok(())
    }

    /// The estimator for `period` of the pair that `asset` names, as a lag or
    /// as a lead; `None` when there is no such pair or period.
    pub fn get_offset(&self, asset: u64, period: &str) -> (r: Option<OffsetEma>)
        requires
            self.wf(),
        ensures
            r == self.offset_for(asset, period@),
    {
        let i = match self.resolve_index(asset) {
            Some(i) => i,
            None => {
                return None;
            },
        };
        let k = match find_label(&self.periods, period) {
            Some(k) => k,
            None => {
                return None;
            },
        };
        proof {
            let c = choose|j: int| 0 <= j < self.periods.len() && self.periods@[j]@ == period@;
            assert(c == k);
            assert(self.offsets@[i as int].len() == self.periods.len());
        }
        Some(self.offsets[i][k].snapshot())
    }

    /// Every period's estimator, in configured order, of the pair that `asset`
    /// names; `None` when there is no such pair.
    pub fn get_all_offset(&self, asset: u64) -> (r: Option<Vec<OffsetEma>>)
        requires
            self.wf(),
        ensures
            match self.resolve(asset) {
                Some(i) => r.is_some() && r.unwrap()@ == self.offsets@[i]@,
                None => r.is_none(),
            },
    {
        match self.resolve_index(asset) {
            Some(i) => {
                let row = &self.offsets[i];
                let mut out: Vec<OffsetEma> = Vec::new();
                let mut k: usize = 0;
                while k < row.len()
                    invariant
                        0 <= k <= row.len(),
                        out@ == row@.take(k as int),
                    decreases row.len() - k,
                {
                    out.push(row[k].snapshot());
                    assert(row@.take(k as int + 1) =~= row@.take(k as int).push(row@[k as int]));
                    k = k + 1;
                }
                assert(row@.take(row.len() as int) =~= row@);
                Some(out)
            },
            None => None,
        }
    }

    fn resolve_index(&self, asset: u64) -> (r: Option<usize>)
        requires
            self.wf(),
        ensures
            r.is_some() == self.resolve(asset).is_some(),
            r.is_some() ==> r.unwrap() == self.resolve(asset).unwrap() && r.unwrap() < self.offsets.len(),
    {
        match find_id(&self.lags, asset) {
            Some(i) => {
                proof {
                    let c = choose|j: int| 0 <= j < self.lags.len() && self.lags@[j] == asset;
                    assert(c == i);
                }
                Some(i)
            },
            None => match find_id(&self.leads, asset) {
                Some(i) => {
                    proof {
                        let c = choose|j: int| 0 <= j < self.leads.len() && self.leads@[j] == asset;
                        assert(c == i);
                    }
                    Some(i)
                },
                None => None,
            },
        }
    }

    /// Every estimator that a lookup can return is well formed.
    pub proof fn lemma_offset_wf(&self, asset: u64, period: Seq<char>)
        requires
            self.wf(),
        ensures
            self.offset_for(asset, period).is_some() ==> self.offset_for(asset, period).unwrap().wf(),
    {
        if let (Some(i), Some(k)) = (self.resolve(asset), label_position(self.periods@, period)) {
            assert(0 <= i < self.offsets.len());
            assert(self.offsets@[i].len() == self.periods.len());
            assert(self.offsets@[i]@[k].wf());
        }
    }
}

} // verus!
