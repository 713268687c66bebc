//! Batched writes of estimator state to the key-value store: values are
//! buffered per bucket and handed out for one batch write when the bucket
//! grows past a size, was never written, or was last written long ago.

use vstd::prelude::*;

verus! {

/// A bucket buffered past this many keys is written.
pub const MAX_UPDATE_LENGTH: usize = 1000;

/// A bucket last written this many ms ago is written again.
pub const MAX_UPDATE_INTVAL: u64 = 600_000;

/// One bucket's pending `(key, value)` pairs, keys distinct, and when it was
/// last written.
pub struct BucketBuffer {
    pub name: String,
    pub entries: Vec<(String, i128)>,
    pub last_flush: Option<u64>,
}

pub open spec fn keys_of(s: Seq<(String, i128)>) -> Seq<Seq<char>> {
    s.map_values(|e: (String, i128)| e.0@)
}

/// `view` with `key` set to `value`: in place when present, else appended.
pub open spec fn upsert(view: Seq<(Seq<char>, i128)>, key: Seq<char>, value: i128) -> Seq<(Seq<char>, i128)> {
    if exists|i: int| 0 <= i < view.len() && view[i].0 == key {
        let i = choose|i: int| 0 <= i < view.len() && view[i].0 == key;
        view.update(i, (key, value))
    } else {
        view.push((key, value))
    }
}

/// `view` with every pair of `data` set in turn.
pub open spec fn upsert_all(view: Seq<(Seq<char>, i128)>, data: Seq<(Seq<char>, i128)>) -> Seq<(Seq<char>, i128)>
    decreases data.len(),
{
    if data.len() == 0 {
        view
    } else {
        upsert(upsert_all(view, data.drop_last()), data.last().0, data.last().1)
    }
}

pub open spec fn entries_view(s: Seq<(String, i128)>) -> Seq<(Seq<char>, i128)> {
    s.map_values(|e: (String, i128)| (e.0@, e.1))
}

pub open spec fn distinct_keys(s: Seq<(String, i128)>) -> bool {
    forall|i: int, j: int| 0 <= i < j < s.len() ==> s[i].0@ != s[j].0@
}

/// Whether a bucket of `len` keys, last written at `last_flush`, is written at `now_ms`.
pub open spec fn flush_due(len: int, last_flush: Option<u64>, now_ms: u64) -> bool {
    len > MAX_UPDATE_LENGTH || last_flush.is_none() || now_ms >= last_flush.unwrap() + MAX_UPDATE_INTVAL
}

fn find_key(entries: &Vec<(String, i128)>, key: &String) -> (r: Option<usize>)
    ensures
        match r {
            Some(i) => i < entries.len() && entries@[i as int].0@ == key@,
            None => forall|j: int| 0 <= j < entries.len() ==> #[trigger] entries@[j].0@ != key@,
        },
{
    let mut i: usize = 0;
    while i < entries.len()
        invariant
            0 <= i <= entries.len(),
            forall|j: int| 0 <= j < i ==> #[trigger] entries@[j].0@ != key@,
        decreases entries.len() - i,
    {
        if entries[i].0 == *key {
            return Some(i);
        }
        i = i + 1;
    }
    None
}

/// Sets `key` to `value` in `entries`, in place when the key is present.
pub fn put_entry(entries: &mut Vec<(String, i128)>, key: String, value: i128)
    requires
        distinct_keys(old(entries)@),
    ensures
        distinct_keys(final(entries)@),
        entries_view(final(entries)@) == upsert(entries_view(old(entries)@), key@, value),
{
    let ghost before = entries@;
    let ghost kv = key@;
    let found = find_key(entries, &key);
    match found {
        Some(k) => {
            proof {
                let v = entries_view(before);
                assert(v[k as int].0 == kv);
                let c = choose|j: int| 0 <= j < v.len() && v[j].0 == kv;
                assert(v[c].0 == before[c].0@);
                assert(c == k as int);
            }
            entries.set(k, (key, value));
            proof {
                assert(entries_view(entries@) =~= upsert(entries_view(before), kv, value));
                assert(distinct_keys(entries@)) by {
                    assert forall|a: int, b: int| 0 <= a < b < entries.len() implies entries@[a].0@ != entries@[b].0@ by {
                        if a != k && b != k {
                            assert(entries@[a] == before[a]);
                            assert(entries@[b] == before[b]);
                        } else if a == k {
                            assert(entries@[b] == before[b]);
                        } else {
                            assert(entries@[a] == before[a]);
                        }
                    }
                }
            }
        },
        None => {
            proof {
                let v = entries_view(before);
                assert forall|j: int| 0 <= j < v.len() implies v[j].0 != kv by {
                    assert(v[j].0 == before[j].0@);
                }
            }
            entries.push((key, value));
            proof {
                assert(entries_view(entries@) =~= upsert(entries_view(before), kv, value));
                assert(distinct_keys(entries@)) by {
                    assert forall|a: int, b: int| 0 <= a < b < entries.len() implies entries@[a].0@ != entries@[b].0@ by {
                        if b == before.len() {
                            assert(entries@[a] == before[a]);
                        } else {
                            assert(entries@[a] == before[a]);
                            assert(entries@[b] == before[b]);
                        }
                    }
                }
            }
        },
    }
}

impl BucketBuffer {
    pub open spec fn wf(&self) -> bool {
        distinct_keys(self.entries@)
    }

    pub fn new(name: String) -> (r: Self)
        ensures
            r.wf(),
            r.name == name,
            r.entries.len() == 0,
            r.last_flush.is_none(),
    {
        BucketBuffer { name, entries: Vec::new(), last_flush: None }
    }

    /// Buffers `value` under `key` at `now_ms`. When a write is due, returns
    /// every buffered pair for one batch write, empties the buffer and notes
    /// the time; otherwise returns `None`.
    pub fn record(&mut self, key: &str, value: i128, now_ms: u64) -> (r: Option<Vec<(String, i128)>>)
        requires
            old(self).wf(),
        ensures
            final(self).wf(),
            final(self).name == old(self).name,
            ({
                let merged = upsert(entries_view(old(self).entries@), key@, value);
                if flush_due(merged.len() as int, old(self).last_flush, now_ms) {
                    &&& r.is_some()
                    &&& entries_view(r.unwrap()@) == merged
                    &&& final(self).entries.len() == 0
                    &&& final(self).last_flush == Some(now_ms)
                } else {
                    &&& r.is_none()
                    &&& entries_view(final(self).entries@) == merged
                    &&& final(self).last_flush == old(self).last_flush
                }
            }),
    {
        put_entry(&mut self.entries, key.to_owned(), value);
        let len = self.entries.len();
        let due = if len > MAX_UPDATE_LENGTH {
            true
        } else {
            match self.last_flush {
                None => true,
                Some(t) => now_ms >= t && now_ms - t >= MAX_UPDATE_INTVAL,
            }
        };
        if due {
            let mut batch: Vec<(String, i128)> = Vec::new();
            std::mem::swap(&mut batch, &mut self.entries);
            self.last_flush = Some(now_ms);
            Some(batch)
        } else {
            None
        }
    }
}

} // verus!
