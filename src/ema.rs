//! Discrete exponential moving averages on a fixed sample interval.
//!
//! For a period of `P` ms sampled every `intval` ms the window length is
//! `L = P / intval`, the decay is `(L - 1) / (L + 1)` and the weight of a new
//! sample is `2 / (L + 1)`. A step is computed exactly and rounded once,
//! toward zero.

use vstd::prelude::*;
use crate::fixed::{abs, div_trunc, trunc_div, SCALE, VALUE_MAX, PRICE_MAX};
use crate::ticker::Ticker;
use crate::period::{get_period_ms, is_valid_period, period_ms_of};

verus! {

/// Longest window, in samples, that the fixed-point step can carry.
pub const LENGTH_MAX: u64 = 4_294_967_295;

/// The window length that a period label and a sample interval give.
pub open spec fn window_length(period: Seq<char>, intval: u64) -> int {
    period_ms_of(period) as int / intval as int
}

/// A period label and an interval that make a window of at least one sample.
pub open spec fn is_valid_window(period: Seq<char>, intval: u64) -> bool {
    &&& is_valid_period(period)
    &&& intval > 0
    &&& 1 <= window_length(period, intval) <= LENGTH_MAX
}

/// Numerator of the decay over the common denominator `L + 1`.
pub open spec fn decay_num(length: int) -> int {
    length - 1
}

/// Numerator of the new-sample weight over the common denominator `L + 1`.
pub open spec fn alpha_num(length: int) -> int {
    2
}

/// One smoothing step: `decay * old + alpha * sample`, rounded toward zero.
pub open spec fn ema_step(old: int, sample: int, length: int) -> int {
    div_trunc(decay_num(length) * old + alpha_num(length) * sample, length + 1)
}

/// An update at `ts` is taken only once `intval` ms have passed since the last one.
pub open spec fn gate_open(last_update_ms: u64, intval: u64, ts: u64) -> bool {
    last_update_ms + intval <= ts
}

/// The value after a committed sample: the sample itself when it is the first
/// one, otherwise one smoothing step.
pub open spec fn committed(old: int, sample: int, length: int, first: bool) -> int {
    if first {
        sample
    } else {
        ema_step(old, sample, length)
    }
}

pub open spec fn bounded(v: int) -> bool {
    abs(v) <= VALUE_MAX
}

/// For every window of two or more samples: `0 < decay < 1`, `0 < alpha < 1`,
/// `decay + alpha == 1`, and `alpha * (L + 1) / 2 == 1`. All weights are
/// numerators over the common denominator `L + 1`.
pub proof fn lemma_weights(length: int)
    requires
        length >= 2,
    ensures
        0 < decay_num(length) < length + 1,
        0 < alpha_num(length) < length + 1,
        decay_num(length) + alpha_num(length) == length + 1,
        alpha_num(length) * (length + 1) == 2 * (length + 1),
{
}

/// A sample of zero never grows a smoothed value, and shrinks any value that
/// is not zero yet: repeated zero samples bring it to zero.
pub proof fn lemma_zero_sample_shrinks(old: int, length: int)
    requires
        length >= 1,
    ensures
        abs(ema_step(old, 0, length)) <= abs(old),
        old != 0 ==> abs(ema_step(old, 0, length)) < abs(old),
{
    let n = decay_num(length) * old;
    assert(n + alpha_num(length) * 0 == n);
    if old >= 0 {
        assert(n / (length + 1) <= old * (length - 1) / (length + 1)) by (nonlinear_arith)
            requires
                n == (length - 1) * old,
        ;
        assert(old * (length - 1) / (length + 1) <= old) by (nonlinear_arith)
            requires
                old >= 0,
                length >= 1,
        ;
        if old > 0 {
            assert(old * (length - 1) / (length + 1) < old) by (nonlinear_arith)
                requires
                    old > 0,
                    length >= 1,
            ;
        }
    } else {
        assert(n <= 0) by (nonlinear_arith)
            requires
                n == (length - 1) * old,
                old < 0,
                length >= 1,
        ;
        assert((-n) / (length + 1) < -old) by (nonlinear_arith)
            requires
                n == (length - 1) * old,
                old < 0,
                length >= 1,
        ;
    }
}

/// Whether a value is within the bound every smoothed value keeps.
pub fn bounded_value(v: i128) -> (r: bool)
    ensures
        r == bounded(v as int),
{
    -VALUE_MAX <= v && v <= VALUE_MAX
}

fn gate(last_update_ms: u64, intval: u64, ts: u64) -> (r: bool)
    ensures
        r == gate_open(last_update_ms, intval, ts),
{
    ts >= last_update_ms && ts - last_update_ms >= intval
}

proof fn lemma_step_bounded(old: int, sample: int, length: int)
    requires
        bounded(old),
        bounded(sample),
        1 <= length <= LENGTH_MAX,
    ensures
        bounded(ema_step(old, sample, length)),
        abs((length - 1) * old + 2 * sample) <= VALUE_MAX * (length + 1),
        VALUE_MAX * (length + 1) < 170_000_000_000_000_000_000_000_000_000_000_000_000,
{
    let v = VALUE_MAX as int;
    assert(abs((length - 1) * old) <= v * (length - 1)) by (nonlinear_arith)
        requires
            abs(old) <= v,
            length >= 1,
    ;
    assert(abs((length - 1) * old + 2 * sample) <= v * (length + 1)) by (nonlinear_arith)
        requires
            abs((length - 1) * old) <= v * (length - 1),
            abs(sample) <= v,
            length >= 1,
    ;
    assert(v * (length + 1) < 170_000_000_000_000_000_000_000_000_000_000_000_000) by (nonlinear_arith)
        requires
            v == 100_000_000_000_000_000_000_000,
            length <= 4_294_967_295,
    ;
    let num = (length - 1) * old + 2 * sample;
    assert(abs(div_trunc(num, length + 1)) <= v) by (nonlinear_arith)
        requires
            abs(num) <= v * (length + 1),
            length >= 1,
    ;
}

fn step(old: i128, sample: i128, length: u64) -> (r: i128)
    requires
        bounded(old as int),
        bounded(sample as int),
        1 <= length <= LENGTH_MAX,
    ensures
        r == ema_step(old as int, sample as int, length as int),
        bounded(r as int),
{
    proof {
        lemma_step_bounded(old as int, sample as int, length as int);
    }
    let l = length as i128;
    let num = (l - 1) * old + 2 * sample;
    trunc_div(num, l + 1)
}

/// Configuration of an offset estimator: a period label and a sample interval in ms.
#[derive(Clone, Debug)]
pub struct OffsetEmaConfig {
    pub period: String,
    pub intval: u64,
}

/// Configuration of a spread estimator.
#[derive(Clone, Debug)]
pub struct SpreadEmaConfig {
    pub period: String,
    pub intval: u64,
}

/// Configuration of a delay estimator.
#[derive(Clone, Debug)]
pub struct DelayEmaConfig {
    pub period: String,
    pub intval: u64,
}

fn window_of(period: &String, intval: u64) -> (r: u64)
    requires
        is_valid_window(period@, intval),
    ensures
        r == window_length(period@, intval),
{
    let p = get_period_ms(period.as_str());
    p / intval
}


/// `num / den - 1` in fixed point, rounded toward zero.
pub open spec fn ratio_offset(num: int, den: int) -> int {
    div_trunc(num * SCALE, den) - SCALE
}

proof fn lemma_ratio_bounded(num: int, den: int)
    requires
        0 < num <= PRICE_MAX,
        0 < den <= PRICE_MAX,
    ensures
        bounded(ratio_offset(num, den)),
{
    assert(0 <= num * SCALE / den <= num * SCALE) by (nonlinear_arith)
        requires
            num > 0,
            den > 0,
    ;
}

fn offset_of(num: i64, den: i64) -> (r: i128)
    requires
        0 < num <= PRICE_MAX,
        0 < den <= PRICE_MAX,
    ensures
        r == ratio_offset(num as int, den as int),
        bounded(r as int),
{
    let n = num as i128 * SCALE;
    let q = trunc_div(n, den as i128);
    assert(q <= n);
    q - SCALE
}

/// Lag bid over lead bid, less one.
pub open spec fn bid2bid(lead: Ticker, lag: Ticker) -> int {
    ratio_offset(lag.bp1 as int, lead.bp1 as int)
}

/// Lag bid over lead ask, less one.
pub open spec fn bid2ask(lead: Ticker, lag: Ticker) -> int {
    ratio_offset(lag.bp1 as int, lead.ap1 as int)
}

/// Lag ask over lead bid, less one.
pub open spec fn ask2bid(lead: Ticker, lag: Ticker) -> int {
    ratio_offset(lag.ap1 as int, lead.bp1 as int)
}

/// Lag ask over lead ask, less one.
pub open spec fn ask2ask(lead: Ticker, lag: Ticker) -> int {
    ratio_offset(lag.ap1 as int, lead.ap1 as int)
}

/// A saved offset state whose four values are in range.
pub open spec fn warm_start_ok(w: Option<(i128, i128, i128, i128)>) -> bool {
    w.is_some() ==> bounded(w.unwrap().0 as int) && bounded(w.unwrap().1 as int) && bounded(
        w.unwrap().2 as int,
    ) && bounded(w.unwrap().3 as int)
}

/// Four smoothed lead/lag ratios that share one sampling clock.
#[derive(Clone, Debug, PartialEq, Eq)]
pub struct OffsetEma {
    pub period: String,
    pub intval: u64,
    pub length: u64,
    pub last_update_ms: u64,
    pub b2b: i128,
    pub b2a: i128,
    pub a2b: i128,
    pub a2a: i128,
    pub init: bool,
}

impl OffsetEma {
    pub open spec fn wf(&self) -> bool {
        &&& self.intval > 0
        &&& 1 <= self.length <= LENGTH_MAX
        &&& bounded(self.b2b as int)
        &&& bounded(self.b2a as int)
        &&& bounded(self.a2b as int)
        &&& bounded(self.a2a as int)
    }

    /// No sample committed yet and none carried over from a saved state.
    pub open spec fn awaits_first(&self) -> bool {
        self.last_update_ms == 0 && !self.init
    }

    /// The estimator after an update from `(lead, lag)` at `ts`.
    pub open spec fn next(self, lead: Ticker, lag: Ticker, ts: u64) -> OffsetEma {
        if gate_open(self.last_update_ms, self.intval, ts) {
            let first = self.awaits_first();
            let l = self.length as int;
            OffsetEma {
                last_update_ms: ts,
                b2b: committed(self.b2b as int, bid2bid(lead, lag), l, first) as i128,
                b2a: committed(self.b2a as int, bid2ask(lead, lag), l, first) as i128,
                a2b: committed(self.a2b as int, ask2bid(lead, lag), l, first) as i128,
                a2a: committed(self.a2a as int, ask2ask(lead, lag), l, first) as i128,
                init: true,
                ..self
            }
        } else {
            self
        }
    }

    /// A fresh estimator for `config` with window `length`, seeded from a saved state when one is given.
    pub open spec fn seeded(config: OffsetEmaConfig, length: u64, warm_start: Option<(i128, i128, i128, i128)>) -> OffsetEma {
        let intval = config.intval;
        match warm_start {
            Some(w) => OffsetEma {
                period: config.period,
                intval,
                length,
                last_update_ms: 0,
                b2b: w.0,
                b2a: w.1,
                a2b: w.2,
                a2a: w.3,
                init: true,
            },
            None => OffsetEma {
                period: config.period,
                intval,
                length,
                last_update_ms: 0,
                b2b: 0,
                b2a: 0,
                a2b: 0,
                a2a: 0,
                init: false,
            },
        }
    }

    /// A fresh estimator, seeded with a saved `(b2b, b2a, a2b, a2a)` when one is given.
    pub fn new(config: &OffsetEmaConfig, warm_start: Option<(i128, i128, i128, i128)>) -> (r: Self)
        requires
            is_valid_window(config.period@, config.intval),
            warm_start_ok(warm_start),
        ensures
            r == OffsetEma::seeded(
                *config,
                window_length(config.period@, config.intval) as u64,
                warm_start,
            ),
            r.wf(),
            r.intval == config.intval,
            r.length == window_length(config.period@, config.intval),
            r.last_update_ms == 0,
            r.init == warm_start.is_some(),
            warm_start.is_some() ==> (r.b2b, r.b2a, r.a2b, r.a2a) == warm_start.unwrap(),
            warm_start.is_none() ==> r.b2b == 0 && r.b2a == 0 && r.a2b == 0 && r.a2a == 0,
    {
        let length = window_of(&config.period, config.intval);
        let (b2b, b2a, a2b, a2a, init) = match warm_start {
            Some(w) => (w.0, w.1, w.2, w.3, true),
            None => (0, 0, 0, 0, false),
        };
        OffsetEma {
            period: config.period.clone(),
            intval: config.intval,
            length,
            last_update_ms: 0,
            b2b,
            b2a,
            a2b,
            a2a,
            init,
        }
    }

    /// A copy of this estimator.
    pub fn snapshot(&self) -> (r: Self)
        ensures
            r == *self,
    {
        OffsetEma {
            period: self.period.clone(),
            intval: self.intval,
            length: self.length,
            last_update_ms: self.last_update_ms,
            b2b: self.b2b,
            b2a: self.b2a,
            a2b: self.a2b,
            a2a: self.a2a,
            init: self.init,
        }
    }

    /// Takes the four ratios of `(lead, lag)` as a sample at `ts`, if the
    /// sampling interval has passed since the last one.
    pub fn update(&mut self, lead: &Ticker, lag: &Ticker, ts: u64)
        requires
            old(self).wf(),
            lead.wf(),
            lag.wf(),
        ensures
            *final(self) == old(self).next(*lead, *lag, ts),
            final(self).wf(),
    {
        let b2b = offset_of(lag.bp1, lead.bp1);
        let b2a = offset_of(lag.bp1, lead.ap1);
        let a2b = offset_of(lag.ap1, lead.bp1);
        let a2a = offset_of(lag.ap1, lead.ap1);
        if gate(self.last_update_ms, self.intval, ts) {
            if self.last_update_ms == 0 && !self.init {
                self.b2b = b2b;
                self.b2a = b2a;
                self.a2b = a2b;
                self.a2a = a2a;
            } else {
                self.b2b = step(self.b2b, b2b, self.length);
                self.b2a = step(self.b2a, b2a, self.length);
                self.a2b = step(self.a2b, a2b, self.length);
                self.a2a = step(self.a2a, a2a, self.length);
            }
            self.last_update_ms = ts;
            self.init = true;
        }
    }
}


/// The smoothed bid/ask spread of one instrument.
#[derive(Clone, Debug, PartialEq, Eq)]
pub struct SpreadEma {
    pub period: String,
    pub intval: u64,
    pub length: u64,
    pub last_update_ms: u64,
    pub spread: i128,
    pub init: bool,
}

impl SpreadEma {
    pub open spec fn wf(&self) -> bool {
        &&& self.intval > 0
        &&& 1 <= self.length <= LENGTH_MAX
        &&& bounded(self.spread as int)
    }

    /// The estimator after an update from `ticker` at `ts`.
    pub open spec fn next(self, ticker: Ticker, ts: u64) -> SpreadEma {
        if gate_open(self.last_update_ms, self.intval, ts) {
            let first = self.last_update_ms == 0 && !self.init;
            let sample = ticker.ap1 - ticker.bp1;
            SpreadEma {
                last_update_ms: ts,
                spread: committed(self.spread as int, sample, self.length as int, first) as i128,
                ..self
            }
        } else {
            self
        }
    }

    /// A fresh estimator, seeded with a saved value when one is given.
    pub fn new(config: &SpreadEmaConfig, warm_start: Option<i128>) -> (r: Self)
        requires
            is_valid_window(config.period@, config.intval),
            warm_start.is_some() ==> bounded(warm_start.unwrap() as int),
        ensures
            r.wf(),
            r.period == config.period,
            r.intval == config.intval,
            r.length == window_length(config.period@, config.intval),
            r.last_update_ms == 0,
            r.init == warm_start.is_some(),
            r.spread == match warm_start {
                Some(v) => v,
                None => 0,
            },
    {
        let length = window_of(&config.period, config.intval);
        let (spread, init) = match warm_start {
            Some(v) => (v, true),
            None => (0, false),
        };
        SpreadEma { period: config.period.clone(), intval: config.intval, length, last_update_ms: 0, spread, init }
    }

    /// A copy of this estimator.
    pub fn snapshot(&self) -> (r: Self)
        ensures
            r == *self,
    {
        SpreadEma {
            period: self.period.clone(),
            intval: self.intval,
            length: self.length,
            last_update_ms: self.last_update_ms,
            spread: self.spread,
            init: self.init,
        }
    }

    /// Takes the spread of `ticker` as a sample at `ts`, if the sampling
    /// interval has passed since the last one.
    pub fn update(&mut self, ticker: &Ticker, ts: u64)
        requires
            old(self).wf(),
            ticker.wf(),
        ensures
            *final(self) == old(self).next(*ticker, ts),
            final(self).wf(),
    {
        let spread = ticker.spread() as i128;
        if gate(self.last_update_ms, self.intval, ts) {
            if self.last_update_ms == 0 && !self.init {
                self.spread = spread;
            } else {
                self.spread = step(self.spread, spread, self.length);
            }
            self.last_update_ms = ts;
        }
    }
}

/// The smoothed receive delay of one instrument, in ms.
#[derive(Clone, Debug, PartialEq, Eq)]
pub struct DelayEma {
    pub period: String,
    pub intval: u64,
    pub length: u64,
    pub last_update_ms: u64,
    pub delay: i128,
    pub init: bool,
}

impl DelayEma {
    pub open spec fn wf(&self) -> bool {
        &&& self.intval > 0
        &&& 1 <= self.length <= LENGTH_MAX
        &&& bounded(self.delay as int)
    }

    /// The estimator after an update from `ticker` at `ts`.
    pub open spec fn next(self, ticker: Ticker, ts: u64) -> DelayEma {
        if gate_open(self.last_update_ms, self.intval, ts) {
            let first = self.last_update_ms == 0 && !self.init;
            DelayEma {
                last_update_ms: ts,
                delay: committed(self.delay as int, ticker.delay(), self.length as int, first) as i128,
                ..self
            }
        } else {
            self
        }
    }

    /// A fresh estimator, seeded with a saved value when one is given.
    pub fn new(config: &DelayEmaConfig, warm_start: Option<i128>) -> (r: Self)
        requires
            is_valid_window(config.period@, config.intval),
            warm_start.is_some() ==> bounded(warm_start.unwrap() as int),
        ensures
            r.wf(),
            r.period == config.period,
            r.intval == config.intval,
            r.length == window_length(config.period@, config.intval),
            r.last_update_ms == 0,
            r.init == warm_start.is_some(),
            r.delay == match warm_start {
                Some(v) => v,
                None => 0,
            },
    {
        let length = window_of(&config.period, config.intval);
        let (delay, init) = match warm_start {
            Some(v) => (v, true),
            None => (0, false),
        };
        DelayEma { period: config.period.clone(), intval: config.intval, length, last_update_ms: 0, delay, init }
    }

    /// A copy of this estimator.
    pub fn snapshot(&self) -> (r: Self)
        ensures
            r == *self,
    {
        DelayEma {
            period: self.period.clone(),
            intval: self.intval,
            length: self.length,
            last_update_ms: self.last_update_ms,
            delay: self.delay,
            init: self.init,
        }
    }

    /// Takes the delay of `ticker` as a sample at `ts`, if the sampling
    /// interval has passed since the last one.
    pub fn update(&mut self, ticker: &Ticker, ts: u64)
        requires
            old(self).wf(),
            ticker.wf(),
        ensures
            *final(self) == old(self).next(*ticker, ts),
            final(self).wf(),
    {
        let delay = ticker.get_delay() as i128;
        if gate(self.last_update_ms, self.intval, ts) {
            if self.last_update_ms == 0 && !self.init {
                self.delay = delay;
            } else {
                self.delay = step(self.delay, delay, self.length);
            }
            self.last_update_ms = ts;
        }
    }
}

proof fn lemma_offset_samples_bounded(e: OffsetEma, lead: Ticker, lag: Ticker)
    requires
        e.wf(),
        lead.wf(),
        lag.wf(),
    ensures
        bounded(ema_step(e.b2b as int, bid2bid(lead, lag), e.length as int)),
        bounded(ema_step(e.b2a as int, bid2ask(lead, lag), e.length as int)),
        bounded(ema_step(e.a2b as int, ask2bid(lead, lag), e.length as int)),
        bounded(ema_step(e.a2a as int, ask2ask(lead, lag), e.length as int)),
        bounded(bid2bid(lead, lag)),
        bounded(bid2ask(lead, lag)),
        bounded(ask2bid(lead, lag)),
        bounded(ask2ask(lead, lag)),
{
    lemma_ratio_bounded(lag.bp1 as int, lead.bp1 as int);
    lemma_ratio_bounded(lag.bp1 as int, lead.ap1 as int);
    lemma_ratio_bounded(lag.ap1 as int, lead.bp1 as int);
    lemma_ratio_bounded(lag.ap1 as int, lead.ap1 as int);
    lemma_step_bounded(e.b2b as int, bid2bid(lead, lag), e.length as int);
    lemma_step_bounded(e.b2a as int, bid2ask(lead, lag), e.length as int);
    lemma_step_bounded(e.a2b as int, ask2bid(lead, lag), e.length as int);
    lemma_step_bounded(e.a2a as int, ask2ask(lead, lag), e.length as int);
}

/// Two updates of an offset estimator at `t1 < t2` with `t2 - t1 < intval`:
/// when the first is taken, the second changes nothing.
pub proof fn lemma_offset_rate_limit(e: OffsetEma, lead1: Ticker, lag1: Ticker, t1: u64, lead2: Ticker, lag2: Ticker, t2: u64)
    requires
        e.wf(),
        t1 < t2,
        t2 - t1 < e.intval,
        gate_open(e.last_update_ms, e.intval, t1),
    ensures
        e.next(lead1, lag1, t1).next(lead2, lag2, t2) == e.next(lead1, lag1, t1),
{
}

/// The same rate limit for the spread estimator.
pub proof fn lemma_spread_rate_limit(e: SpreadEma, x1: Ticker, t1: u64, x2: Ticker, t2: u64)
    requires
        e.wf(),
        t1 < t2,
        t2 - t1 < e.intval,
        gate_open(e.last_update_ms, e.intval, t1),
    ensures
        e.next(x1, t1).next(x2, t2) == e.next(x1, t1),
{
}

/// The same rate limit for the delay estimator.
pub proof fn lemma_delay_rate_limit(e: DelayEma, x1: Ticker, t1: u64, x2: Ticker, t2: u64)
    requires
        e.wf(),
        t1 < t2,
        t2 - t1 < e.intval,
        gate_open(e.last_update_ms, e.intval, t1),
    ensures
        e.next(x1, t1).next(x2, t2) == e.next(x1, t1),
{
}

/// A warm-started offset estimator smooths its first live sample rather than
/// replacing its saved values with it.
pub proof fn lemma_offset_warm_start_smooths(e: OffsetEma, lead: Ticker, lag: Ticker, ts: u64)
    requires
        e.wf(),
        lead.wf(),
        lag.wf(),
        e.init,
        gate_open(e.last_update_ms, e.intval, ts),
    ensures
        e.next(lead, lag, ts).b2b == ema_step(e.b2b as int, bid2bid(lead, lag), e.length as int),
        e.next(lead, lag, ts).b2a == ema_step(e.b2a as int, bid2ask(lead, lag), e.length as int),
        e.next(lead, lag, ts).a2b == ema_step(e.a2b as int, ask2bid(lead, lag), e.length as int),
        e.next(lead, lag, ts).a2a == ema_step(e.a2a as int, ask2ask(lead, lag), e.length as int),
        e.next(lead, lag, ts).init,
        e.next(lead, lag, ts).last_update_ms == ts,
{
    lemma_offset_samples_bounded(e, lead, lag);
}

/// A warm-started spread estimator smooths its first live sample.
pub proof fn lemma_spread_warm_start_smooths(e: SpreadEma, x: Ticker, ts: u64)
    requires
        e.wf(),
        x.wf(),
        e.init,
        gate_open(e.last_update_ms, e.intval, ts),
    ensures
        e.next(x, ts).spread == ema_step(e.spread as int, x.ap1 - x.bp1, e.length as int),
{
    lemma_step_bounded(e.spread as int, x.ap1 - x.bp1, e.length as int);
}

/// A warm-started delay estimator smooths its first live sample.
pub proof fn lemma_delay_warm_start_smooths(e: DelayEma, x: Ticker, ts: u64)
    requires
        e.wf(),
        x.wf(),
        e.init,
        gate_open(e.last_update_ms, e.intval, ts),
    ensures
        e.next(x, ts).delay == ema_step(e.delay as int, x.delay(), e.length as int),
{
    lemma_step_bounded(e.delay as int, x.delay(), e.length as int);
}

/// When lead and lag quote the same bid and the same ask, a taken update
/// leaves the bid/bid and ask/ask offsets no larger, and strictly smaller
/// unless already zero (or sets them to zero outright on a first sample):
/// repeated updates bring them to zero. The bid/ask and ask/bid offsets
/// tend to `bid / ask - 1` and `ask / bid - 1`, zero only when bid equals ask.
pub proof fn lemma_offset_symmetry(e: OffsetEma, lead: Ticker, lag: Ticker, ts: u64)
    requires
        e.wf(),
        lead.wf(),
        lag.wf(),
        lead.ap1 == lag.ap1,
        lead.bp1 == lag.bp1,
        gate_open(e.last_update_ms, e.intval, ts),
    ensures
        bid2bid(lead, lag) == 0,
        ask2ask(lead, lag) == 0,
        abs(e.next(lead, lag, ts).b2b as int) <= abs(e.b2b as int),
        abs(e.next(lead, lag, ts).a2a as int) <= abs(e.a2a as int),
        e.b2b != 0 ==> abs(e.next(lead, lag, ts).b2b as int) < abs(e.b2b as int),
        e.a2a != 0 ==> abs(e.next(lead, lag, ts).a2a as int) < abs(e.a2a as int),
        lead.ap1 == lead.bp1 ==> bid2ask(lead, lag) == 0 && ask2bid(lead, lag) == 0,
{
    assert((lag.bp1 as int) * (SCALE as int) / (lead.bp1 as int) == SCALE) by (nonlinear_arith)
        requires
            lag.bp1 == lead.bp1,
            lead.bp1 > 0,
    ;
    assert((lag.ap1 as int) * (SCALE as int) / (lead.ap1 as int) == SCALE) by (nonlinear_arith)
        requires
            lag.ap1 == lead.ap1,
            lead.ap1 > 0,
    ;
    lemma_offset_samples_bounded(e, lead, lag);
    lemma_zero_sample_shrinks(e.b2b as int, e.length as int);
    lemma_zero_sample_shrinks(e.a2a as int, e.length as int);
    let n = e.next(lead, lag, ts);
    if !e.awaits_first() {
        assert(n.b2b == ema_step(e.b2b as int, 0, e.length as int));
        assert(n.a2a == ema_step(e.a2a as int, 0, e.length as int));
    }
}

} // verus!
