//! A continuous-time exponential moving average with time constant `tau` ms.
//!
//! An update at `ts` scales the old value by `exp(-(ts - last_ts) / tau)`
//! and adds `new_val / tau`. The exponential is taken by the caller and
//! handed in as a fixed-point factor in `[0, 1]`.

use vstd::prelude::*;
use crate::ema::bounded;
use crate::fixed::{abs, div_trunc, trunc_div, SCALE, VALUE_MAX};
use crate::period::{get_period_ms, is_valid_period, period_ms_of};

verus! {

/// Clamps a value into `[-VALUE_MAX, VALUE_MAX]`.
pub open spec fn saturate(v: int) -> int {
    if v > VALUE_MAX {
        VALUE_MAX as int
    } else if v < -VALUE_MAX {
        -VALUE_MAX
    } else {
        v
    }
}

/// The value after `new_val` arrives with decay factor `decay`: the first
/// observation seeds the average, later ones decay it and add `new_val / tau`,
/// saturating at the value bound.
pub open spec fn tema_next(val: int, last_ts: u64, new_val: int, decay: int, tau: int) -> int {
    if last_ts == 0 {
        new_val
    } else {
        saturate(div_trunc(val * decay, SCALE as int) + div_trunc(new_val, tau))
    }
}

#[derive(Clone, Debug)]
pub struct TemaMs {
    pub last_ts: u64,
    pub val: i128,
    pub tau: String,
    pub tau_value: u64,
}

impl TemaMs {
    pub open spec fn wf(&self) -> bool {
        self.tau_value > 0 && bounded(self.val as int)
    }

    /// An average with time constant `tau` (a period label), resumed from a
    /// saved `(value, last_ts)` when one is given.
    pub fn new(tau: &str, warm_start: Option<(i128, u64)>) -> (r: Self)
        requires
            is_valid_period(tau@),
            period_ms_of(tau@) > 0,
            warm_start.is_some() ==> bounded(warm_start.unwrap().0 as int),
        ensures
            r.wf(),
            r.tau@ == tau@,
            r.tau_value == period_ms_of(tau@),
            r.val == match warm_start {
                Some(w) => w.0,
                None => 0,
            },
            r.last_ts == match warm_start {
                Some(w) => w.1,
                None => 0,
            },
    {
        let tau_value = get_period_ms(tau);
        let (val, last_ts) = match warm_start {
            Some(w) => w,
            None => (0, 0),
        };
        TemaMs { last_ts, val, tau: tau.to_owned(), tau_value }
    }

    /// Feeds `new_val` observed at `ts`; `decay` is `exp(-(ts - last_ts) / tau)`
    /// in fixed point.
    pub fn update(&mut self, new_val: i128, ts: u64, decay: i128)
        requires
            old(self).wf(),
            bounded(new_val as int),
            0 <= decay <= SCALE,
        ensures
            final(self).wf(),
            final(self).val == tema_next(old(self).val as int, old(self).last_ts, new_val as int, decay as int, old(self).tau_value as int),
            final(self).last_ts == ts,
            final(self).tau == old(self).tau,
            final(self).tau_value == old(self).tau_value,
    {
        if self.last_ts == 0 {
            self.val = new_val;
        } else {
            assert(abs((self.val * decay) as int) <= VALUE_MAX * SCALE) by (nonlinear_arith)
                requires
                    abs(self.val as int) <= VALUE_MAX,
                    0 <= decay <= SCALE,
            ;
            let kept = trunc_div(self.val * decay, SCALE);
            let added = trunc_div(new_val, self.tau_value as i128);
            let v = kept + added;
            self.val = if v > VALUE_MAX {
                VALUE_MAX
            } else if v < -VALUE_MAX {
                -VALUE_MAX
            } else {
                v
            };
        }
        self.last_ts = ts;
    }

    /// Fed at least once: the clock has left zero.
    pub open spec fn ready(&self) -> bool {
        self.last_ts > 0
    }

    pub fn is_ready(&self) -> (r: bool)
        ensures
            r == self.ready(),
    {
        self.last_ts > 0
    }

    /// A copy of the clock and value, with the same time constant.
    pub fn clone_state(&self) -> (r: Self)
        ensures
            r.last_ts == self.last_ts,
            r.val == self.val,
            r.tau@ == self.tau@,
            r.tau_value == self.tau_value,
    {
        TemaMs { last_ts: self.last_ts, val: self.val, tau: self.tau.clone(), tau_value: self.tau_value }
    }
}

} // verus!
