//! Telemetry batching: a global summary ping every few seconds, rows of
//! fields per measurement and instrument merged key by key until their
//! measurement is due, and a queue of single rows sent once a second.

use vstd::prelude::*;
use crate::persistence::{distinct_keys, entries_view, put_entry, upsert_all};

verus! {

/// Interval of the global summary ping, in ms.
pub const GLOBAL_REPORT_INTVAL: u64 = 3000;

/// Interval at which a measurement's merged rows are sent, in ms.
pub const BATCH_REPORT_INTVAL: u64 = 1000;

/// Interval at which the queue of single rows is sent, in ms.
pub const SINGLE_REPORT_INTVAL: u64 = 1000;

/// One row of a measurement: its tags and its fields.
pub struct ReportRow {
    pub measurement: String,
    pub tags: Vec<(String, String)>,
    pub fields: Vec<(String, i128)>,
}

/// The merged fields of one instrument within a measurement.
pub struct AssetFields {
    pub asset: u64,
    pub fields: Vec<(String, i128)>,
}

pub open spec fn rows_view(s: Seq<AssetFields>) -> Seq<(u64, Seq<(Seq<char>, i128)>)> {
    s.map_values(|r: AssetFields| (r.asset, entries_view(r.fields@)))
}

/// `rows` after `data` is merged into the row of `asset`, which is appended
/// when there is none.
pub open spec fn merge_row(
    rows: Seq<(u64, Seq<(Seq<char>, i128)>)>,
    asset: u64,
    data: Seq<(Seq<char>, i128)>,
) -> Seq<(u64, Seq<(Seq<char>, i128)>)> {
    if exists|i: int| 0 <= i < rows.len() && rows[i].0 == asset {
        let i = choose|i: int| 0 <= i < rows.len() && rows[i].0 == asset;
        rows.update(i, (asset, upsert_all(rows[i].1, data)))
    } else {
        rows.push((asset, upsert_all(Seq::empty(), data)))
    }
}

/// One measurement's pending rows and when they were last sent.
pub struct MeasurementBatch {
    pub measurement: String,
    pub last_report_ms: u64,
    pub rows: Vec<AssetFields>,
}

fn merge_fields(fields: &mut Vec<(String, i128)>, data: &Vec<(String, i128)>)
    requires
        distinct_keys(old(fields)@),
    ensures
        distinct_keys(final(fields)@),
        entries_view(final(fields)@) == upsert_all(entries_view(old(fields)@), entries_view(data@)),
{
    let ghost start = entries_view(fields@);
    let mut i: usize = 0;
    while i < data.len()
        invariant
            0 <= i <= data.len(),
            distinct_keys(fields@),
            entries_view(fields@) == upsert_all(start, entries_view(data@.take(i as int))),
        decreases data.len() - i,
    {
        let (k, v) = (data[i].0.clone(), data[i].1);
        put_entry(fields, k, v);
        proof {
            let d = entries_view(data@.take(i as int + 1));
            assert(d.drop_last() =~= entries_view(data@.take(i as int)));
            assert(d.last() == (data@[i as int].0@, data@[i as int].1));
        }
        i = i + 1;
    }
    assert(data@.take(data.len() as int) =~= data@);
}

impl MeasurementBatch {
    pub open spec fn wf(&self) -> bool {
        &&& forall|i: int, j: int| 0 <= i < j < self.rows.len() ==> self.rows@[i].asset != self.rows@[j].asset
        &&& forall|i: int| 0 <= i < self.rows.len() ==> distinct_keys(#[trigger] self.rows@[i].fields@)
    }

    pub fn new(measurement: String) -> (r: Self)
        ensures
            r.wf(),
            r.measurement == measurement,
            r.last_report_ms == 0,
            r.rows.len() == 0,
    {
        MeasurementBatch { measurement, last_report_ms: 0, rows: Vec::new() }
    }

    /// When the measurement is due at `now_ms`, hands out every row, empties
    /// the batch and notes the time.
    pub fn flush(&mut self, now_ms: u64) -> (r: Option<Vec<AssetFields>>)
        requires
            old(self).wf(),
        ensures
            final(self).wf(),
            final(self).measurement == old(self).measurement,
            old(self).last_report_ms + BATCH_REPORT_INTVAL <= now_ms ==> {
                &&& r.is_some()
                &&& r.unwrap()@ == old(self).rows@
                &&& final(self).rows.len() == 0
                &&& final(self).last_report_ms == now_ms
            },
            !(old(self).last_report_ms + BATCH_REPORT_INTVAL <= now_ms) ==> {
                &&& r.is_none()
                &&& final(self).rows@ == old(self).rows@
                &&& final(self).last_report_ms == old(self).last_report_ms
            },
    {
        if now_ms >= self.last_report_ms && now_ms - self.last_report_ms >= BATCH_REPORT_INTVAL {
            let mut out: Vec<AssetFields> = Vec::new();
            std::mem::swap(&mut out, &mut self.rows);
            self.last_report_ms = now_ms;
            Some(out)
        } else {
            None
        }
    }

    /// Merges `data` into the row of `asset`; when the measurement is due at
    /// `now_ms`, hands out every row, empties the batch and notes the time.
    pub fn add(&mut self, asset: u64, data: &Vec<(String, i128)>, now_ms: u64) -> (r: Option<Vec<AssetFields>>)
        requires
            old(self).wf(),
        ensures
            final(self).wf(),
            final(self).measurement == old(self).measurement,
            ({
                let merged = merge_row(rows_view(old(self).rows@), asset, entries_view(data@));
                if old(self).last_report_ms + BATCH_REPORT_INTVAL <= now_ms {
                    &&& r.is_some()
                    &&& rows_view(r.unwrap()@) == merged
                    &&& final(self).rows.len() == 0
                    &&& final(self).last_report_ms == now_ms
                } else {
                    &&& r.is_none()
                    &&& rows_view(final(self).rows@) == merged
                    &&& final(self).last_report_ms == old(self).last_report_ms
                }
            }),
    {
        let ghost before = self.rows@;
        let ghost bv = rows_view(before);
        let mut i: usize = 0;
        let mut found: Option<usize> = None;
        while i < self.rows.len() && found.is_none()
            invariant
                0 <= i <= self.rows.len(),
                self.rows@ == before,
                found.is_some() ==> found.unwrap() < self.rows.len() && self.rows@[found.unwrap() as int].asset == asset,
                found.is_none() ==> forall|j: int| 0 <= j < i ==> #[trigger] before[j].asset != asset,
            decreases self.rows.len() - i,
        {
            if self.rows[i].asset == asset {
                found = Some(i);
            }
            i = i + 1;
        }
        match found {
            Some(k) => {
                proof {
                    assert(bv[k as int].0 == asset);
                    let c = choose|j: int| 0 <= j < bv.len() && bv[j].0 == asset;
                    assert(bv[c].0 == before[c].asset);
                    assert(c == k as int);
                }
                let mut row = AssetFields { asset: 0, fields: Vec::new() };
                self.rows.set_and_swap(k, &mut row);
                merge_fields(&mut row.fields, data);
                self.rows.set_and_swap(k, &mut row);
                proof {
                    assert(rows_view(self.rows@) =~= merge_row(bv, asset, entries_view(data@)));
                    assert forall|a: int, b: int| 0 <= a < b < self.rows.len() implies self.rows@[a].asset != self.rows@[b].asset by {
                        assert(self.rows@[a].asset == before[a].asset);
                        assert(self.rows@[b].asset == before[b].asset);
                    }
                    assert forall|a: int| 0 <= a < self.rows.len() implies distinct_keys(#[trigger] self.rows@[a].fields@) by {
                        if a != k {
                            assert(self.rows@[a] == before[a]);
                        }
                    }
                }
            },
            None => {
                proof {
                    assert forall|j: int| 0 <= j < bv.len() implies bv[j].0 != asset by {
                        assert(bv[j].0 == before[j].asset);
                    }
                }
                let mut fields: Vec<(String, i128)> = Vec::new();
                proof {
                    assert(entries_view(fields@) =~= Seq::empty());
                }
                merge_fields(&mut fields, data);
                self.rows.push(AssetFields { asset, fields });
                proof {
                    assert(rows_view(self.rows@) =~= merge_row(bv, asset, entries_view(data@)));
                    assert forall|a: int, b: int| 0 <= a < b < self.rows.len() implies self.rows@[a].asset != self.rows@[b].asset by {
                        if b < before.len() {
                            assert(self.rows@[a] == before[a]);
                            assert(self.rows@[b] == before[b]);
                        } else {
                            assert(self.rows@[a] == before[a]);
                        }
                    }
                    assert forall|a: int| 0 <= a < self.rows.len() implies distinct_keys(#[trigger] self.rows@[a].fields@) by {
                        if a < before.len() {
                            assert(self.rows@[a] == before[a]);
                        }
                    }
                }
            },
        }
        self.flush(now_ms)
    }
}

pub open spec fn measurements_of(s: Seq<MeasurementBatch>) -> Seq<Seq<char>> {
    s.map_values(|b: MeasurementBatch| b.measurement@)
}

/// The telemetry reporter of one strategy instance.
pub struct Reporter {
    pub instance_id: String,
    pub global_report_ms: u64,
    pub single_report_ms: u64,
    pub singles: Vec<ReportRow>,
    pub batches: Vec<MeasurementBatch>,
}

impl Reporter {
    pub open spec fn wf(&self) -> bool {
        &&& forall|i: int, j: int|
            0 <= i < j < self.batches.len() ==> self.batches@[i].measurement@ != self.batches@[j].measurement@
        &&& forall|i: int| 0 <= i < self.batches.len() ==> (#[trigger] self.batches@[i]).wf()
    }

    pub fn new(instance_id: &str) -> (r: Self)
        ensures
            r.wf(),
            r.instance_id@ == instance_id@,
            r.global_report_ms == 0,
            r.single_report_ms == 0,
            r.singles.len() == 0,
            r.batches.len() == 0,
    {
        Reporter {
            instance_id: instance_id.to_owned(),
            global_report_ms: 0,
            single_report_ms: 0,
            singles: Vec::new(),
            batches: Vec::new(),
        }
    }

    /// Whether the global summary ping is due at `now_ms`; when it is, the
    /// clock moves to `now_ms`.
    pub fn report_global(&mut self, now_ms: u64) -> (r: bool)
        ensures
            r == (old(self).global_report_ms + GLOBAL_REPORT_INTVAL <= now_ms),
            final(self).global_report_ms == if r {
                now_ms
            } else {
                old(self).global_report_ms
            },
            final(self).single_report_ms == old(self).single_report_ms,
            final(self).singles == old(self).singles,
            final(self).batches == old(self).batches,
            final(self).instance_id == old(self).instance_id,
    {
        if now_ms >= self.global_report_ms && now_ms - self.global_report_ms >= GLOBAL_REPORT_INTVAL {
            self.global_report_ms = now_ms;
            true
        } else {
            false
        }
    }

    /// Queues a single row; when the queue is due at `now_ms`, hands out every
    /// queued row, in order, and empties the queue.
    pub fn add_custom_single_report_data(&mut self, row: ReportRow, now_ms: u64) -> (r: Option<Vec<ReportRow>>)
        ensures
            old(self).single_report_ms + SINGLE_REPORT_INTVAL <= now_ms ==> {
                &&& r.is_some()
                &&& r.unwrap()@ == old(self).singles@.push(row)
                &&& final(self).singles.len() == 0
                &&& final(self).single_report_ms == now_ms
            },
            !(old(self).single_report_ms + SINGLE_REPORT_INTVAL <= now_ms) ==> {
                &&& r.is_none()
                &&& final(self).singles@ == old(self).singles@.push(row)
                &&& final(self).single_report_ms == old(self).single_report_ms
            },
            final(self).global_report_ms == old(self).global_report_ms,
            final(self).batches == old(self).batches,
            final(self).instance_id == old(self).instance_id,
    {
        self.singles.push(row);
        self.single_report_custom_data(now_ms)
    }

    /// When the queue of single rows is due at `now_ms`, hands out every
    /// queued row, in order, and empties the queue.
    pub fn single_report_custom_data(&mut self, now_ms: u64) -> (r: Option<Vec<ReportRow>>)
        ensures
            old(self).single_report_ms + SINGLE_REPORT_INTVAL <= now_ms ==> {
                &&& r.is_some()
                &&& r.unwrap()@ == old(self).singles@
                &&& final(self).singles.len() == 0
                &&& final(self).single_report_ms == now_ms
            },
            !(old(self).single_report_ms + SINGLE_REPORT_INTVAL <= now_ms) ==> {
                &&& r.is_none()
                &&& final(self).singles@ == old(self).singles@
                &&& final(self).single_report_ms == old(self).single_report_ms
            },
            final(self).global_report_ms == old(self).global_report_ms,
            final(self).batches == old(self).batches,
            final(self).instance_id == old(self).instance_id,
    {
        if now_ms >= self.single_report_ms && now_ms - self.single_report_ms >= SINGLE_REPORT_INTVAL {
            let mut out: Vec<ReportRow> = Vec::new();
            std::mem::swap(&mut out, &mut self.singles);
            self.single_report_ms = now_ms;
            Some(out)
        } else {
            None
        }
    }

    /// The batch of `measurement`, if there is one.
    pub open spec fn batch_index(&self, measurement: Seq<char>) -> Option<int> {
        if exists|i: int| 0 <= i < self.batches.len() && self.batches@[i].measurement@ == measurement {
            Some(choose|i: int| 0 <= i < self.batches.len() && self.batches@[i].measurement@ == measurement)
        } else {
            None
        }
    }

    fn find_batch(&self, measurement: &String) -> (r: Option<usize>)
        requires
            self.wf(),
        ensures
            r.is_some() == self.batch_index(measurement@).is_some(),
            r.is_some() ==> r.unwrap() == self.batch_index(measurement@).unwrap() && r.unwrap() < self.batches.len(),
    {
        let mut i: usize = 0;
        while i < self.batches.len()
            invariant
                self.wf(),
                0 <= i <= self.batches.len(),
                forall|j: int| 0 <= j < i ==> #[trigger] self.batches@[j].measurement@ != measurement@,
            decreases self.batches.len() - i,
        {
            if self.batches[i].measurement == *measurement {
                proof {
                    let c = choose|j: int| 0 <= j < self.batches.len() && self.batches@[j].measurement@ == measurement@;
                    assert(c == i);
                }
                return Some(i);
            }
            i = i + 1;
        }
        None
    }

    /// When `measurement` has a batch that is due at `now_ms`, hands out its
    /// rows and empties it.
    pub fn batch_report_custom_data(&mut self, measurement: &str, now_ms: u64) -> (r: Option<Vec<AssetFields>>)
        requires
            old(self).wf(),
        ensures
            final(self).wf(),
            final(self).global_report_ms == old(self).global_report_ms,
            final(self).single_report_ms == old(self).single_report_ms,
            final(self).singles == old(self).singles,
            final(self).instance_id == old(self).instance_id,
            final(self).batches.len() == old(self).batches.len(),
            match old(self).batch_index(measurement@) {
                None => r.is_none() && final(self).batches == old(self).batches,
                Some(i) => {
                    let b = old(self).batches@[i];
                    &&& forall|j: int| 0 <= j < old(self).batches.len() && j != i ==> #[trigger] final(self).batches@[j] == old(self).batches@[j]
                    &&& final(self).batches@[i].measurement == b.measurement
                    &&& if b.last_report_ms + BATCH_REPORT_INTVAL <= now_ms {
                        &&& r.is_some()
                        &&& r.unwrap()@ == b.rows@
                        &&& final(self).batches@[i].rows.len() == 0
                        &&& final(self).batches@[i].last_report_ms == now_ms
                    } else {
                        &&& r.is_none()
                        &&& final(self).batches@[i].rows@ == b.rows@
                        &&& final(self).batches@[i].last_report_ms == b.last_report_ms
                    }
                },
            },
    {
        let wanted = measurement.to_owned();
        match self.find_batch(&wanted) {
            None => None,
            Some(k) => {
                let ghost before = self.batches@;
                let mut batch = MeasurementBatch::new(String::new());
                self.batches.set_and_swap(k, &mut batch);
                let r = batch.flush(now_ms);
                self.batches.set_and_swap(k, &mut batch);
                proof {
                    assert forall|a: int, b: int| 0 <= a < b < self.batches.len() implies self.batches@[a].measurement@ != self.batches@[b].measurement@ by {
                        if a != k {
                            assert(self.batches@[a] == before[a]);
                        }
                        if b != k {
                            assert(self.batches@[b] == before[b]);
                        }
                    }
                    assert forall|a: int| 0 <= a < self.batches.len() implies (#[trigger] self.batches@[a]).wf() by {
                        if a != k {
                            assert(self.batches@[a] == before[a]);
                        }
                    }
                }
                r
            },
        }
    }

    /// Merges `data` into the row of `asset` in `measurement`, which starts
    /// empty and never sent when new; hands out the measurement's rows when
    /// it is due (see `MeasurementBatch::add`).
    pub fn add_custom_batch_report_data(
        &mut self,
        measurement: &str,
        asset: u64,
        data: &Vec<(String, i128)>,
        now_ms: u64,
    ) -> (r: Option<Vec<AssetFields>>)
        requires
            old(self).wf(),
        ensures
            final(self).wf(),
            final(self).global_report_ms == old(self).global_report_ms,
            final(self).single_report_ms == old(self).single_report_ms,
            final(self).singles == old(self).singles,
            final(self).instance_id == old(self).instance_id,
            ({
                let (rows, last) = match old(self).batch_index(measurement@) {
                    Some(i) => (rows_view(old(self).batches@[i].rows@), old(self).batches@[i].last_report_ms),
                    None => (Seq::empty(), 0u64),
                };
                let merged = merge_row(rows, asset, entries_view(data@));
                let i = final(self).batch_index(measurement@);
                &&& i.is_some()
                &&& if last + BATCH_REPORT_INTVAL <= now_ms {
                    &&& r.is_some()
                    &&& rows_view(r.unwrap()@) == merged
                    &&& final(self).batches@[i.unwrap()].rows.len() == 0
                    &&& final(self).batches@[i.unwrap()].last_report_ms == now_ms
                } else {
                    &&& r.is_none()
                    &&& rows_view(final(self).batches@[i.unwrap()].rows@) == merged
                    &&& final(self).batches@[i.unwrap()].last_report_ms == last
                }
            }),
    {
        let wanted = measurement.to_owned();
        let ghost before = self.batches@;
        let mut i: usize = 0;
        let mut found: Option<usize> = None;
        while i < self.batches.len() && found.is_none()
            invariant
                0 <= i <= self.batches.len(),
                self.batches@ == before,
                wanted@ == measurement@,
                found.is_some() ==> found.unwrap() < self.batches.len() && self.batches@[found.unwrap() as int].measurement@ == measurement@,
                found.is_none() ==> forall|j: int| 0 <= j < i ==> #[trigger] before[j].measurement@ != measurement@,
            decreases self.batches.len() - i,
        {
            if self.batches[i].measurement == wanted {
                found = Some(i);
            }
            i = i + 1;
        }
        let k = match found {
            Some(k) => {
                proof {
                    let c = choose|j: int| 0 <= j < before.len() && before[j].measurement@ == measurement@;
                    assert(c == k as int);
                }
                k
            },
            None => {
                self.batches.push(MeasurementBatch::new(wanted));
                proof {
                    assert forall|a: int, b: int| 0 <= a < b < self.batches.len() implies self.batches@[a].measurement@ != self.batches@[b].measurement@ by {
                        assert(self.batches@[a] == before[a]);
                        if b < before.len() {
                            assert(self.batches@[b] == before[b]);
                        }
                    }
                    assert forall|a: int| 0 <= a < self.batches.len() implies (#[trigger] self.batches@[a]).wf() by {
                        if a < before.len() {
                            assert(self.batches@[a] == before[a]);
                        }
                    }
                    let n = before.len() as int;
                    assert(self.batches@[n].measurement@ == measurement@);
                    let c = choose|j: int| 0 <= j < self.batches.len() && self.batches@[j].measurement@ == measurement@;
                    if c != n {
                        assert(self.batches@[c] == before[c]);
                    }
                    assert(rows_view(self.batches@[n].rows@) =~= Seq::empty());
                }
                self.batches.len() - 1
            },
        };
        let ghost mid = self.batches@;
        let mut batch = MeasurementBatch::new(String::new());
        self.batches.set_and_swap(k, &mut batch);
        let r = batch.add(asset, data, now_ms);
        self.batches.set_and_swap(k, &mut batch);
        proof {
            assert forall|a: int, b: int| 0 <= a < b < self.batches.len() implies self.batches@[a].measurement@ != self.batches@[b].measurement@ by {
                if a != k {
                    assert(self.batches@[a] == mid[a]);
                }
                if b != k {
                    assert(self.batches@[b] == mid[b]);
                }
            }
            assert forall|a: int| 0 <= a < self.batches.len() implies (#[trigger] self.batches@[a]).wf() by {
                if a != k {
                    assert(self.batches@[a] == mid[a]);
                }
            }
            assert(self.batches@[k as int].measurement@ == measurement@);
            let c = choose|j: int| 0 <= j < self.batches.len() && self.batches@[j].measurement@ == measurement@;
            if c != k {
                assert(self.batches@[c] == mid[c]);
            }
        }
        r
    }
}

} // verus!
