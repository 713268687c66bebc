//! Theoretical lag prices from the live lead quote and a smoothed offset.

use vstd::prelude::*;
use crate::ema::OffsetEma;
use crate::fixed::{div_trunc, trunc_div, SCALE};
use crate::offset_cache::OffsetCache;
use crate::ticker::Ticker;

verus! {

/// Bound on the magnitude of a theoretical price.
pub const THEO_MAX: i128 = 200_000_000_000_000_000_000_000_000_000;

/// Why no theoretical price could be formed.
#[derive(Clone, Copy, Debug, PartialEq, Eq, Structural)]
pub enum TheoPriceError {
    /// No estimator for this instrument and period.
    OffsetMissing { asset: u64 },
    /// The estimator has not committed a sample nor been warm-started.
    OffsetNotInit { asset: u64 },
}

/// `(offset + 1) * price`, rounded toward zero.
pub open spec fn apply_offset(offset: int, price: int) -> int {
    div_trunc((offset + SCALE) * price, SCALE as int)
}

fn offset_price(offset: i128, price: i64) -> (r: i128)
    requires
        crate::ema::bounded(offset as int),
        0 < price <= crate::fixed::PRICE_MAX,
    ensures
        r == apply_offset(offset as int, price as int),
        -THEO_MAX <= r <= THEO_MAX,
{
    let p = price as i128;
    let a = offset + SCALE;
    assert(-20_000_000_000_000_000_000_000_000_000_000_000_000 <= a * p
        <= 20_000_000_000_000_000_000_000_000_000_000_000_000) by (nonlinear_arith)
        requires
            -200_000_000_000_000_000_000_000 <= a <= 200_000_000_000_000_000_000_000,
            0 < p <= 100_000_000_000_000,
    ;
    let r = trunc_div(a * p, SCALE);
    assert(-THEO_MAX <= r <= THEO_MAX) by (nonlinear_arith)
        requires
            r == div_trunc((a * p) as int, 100_000_000),
            -20_000_000_000_000_000_000_000_000_000_000_000_000 <= a * p
                <= 20_000_000_000_000_000_000_000_000_000_000_000_000,
    ;
    r
}

/// The maker's `(ask, bid)` for a lead quote: `(a2a + 1) * ask`, `(a2b + 1) * bid`.
pub open spec fn maker_theo(e: OffsetEma, lead: Ticker) -> (int, int) {
    (apply_offset(e.a2a as int, lead.ap1 as int), apply_offset(e.a2b as int, lead.bp1 as int))
}

/// The taker's `(ask, bid)` for a lead quote: `(a2b + 1) * bid`, `(b2a + 1) * ask`,
/// each built from the opposite side of the lead.
pub open spec fn taker_theo(e: OffsetEma, lead: Ticker) -> (int, int) {
    (apply_offset(e.a2b as int, lead.bp1 as int), apply_offset(e.b2a as int, lead.ap1 as int))
}

/// The maker's theoretical `(ask, bid)` for the lag of `lead`.
pub fn get_theo_maker_price(lead: &Ticker, period: &str, offset_cache: &OffsetCache) -> (r: Result<(i128, i128), TheoPriceError>)
    requires
        lead.wf(),
        offset_cache.wf(),
    ensures
        match offset_cache.offset_for(lead.asset, period@) {
            None => r == Err::<(i128, i128), TheoPriceError>(TheoPriceError::OffsetMissing { asset: lead.asset }),
            Some(e) => r.is_ok() && r.unwrap().0 == maker_theo(e, *lead).0 && r.unwrap().1 == maker_theo(e, *lead).1,
        },
        r.is_ok() ==> -THEO_MAX <= r.unwrap().0 <= THEO_MAX && -THEO_MAX <= r.unwrap().1 <= THEO_MAX,
{
    match offset_cache.get_offset(lead.asset, period) {
        None => Err(TheoPriceError::OffsetMissing { asset: lead.asset }),
        Some(e) => {
            proof {
                offset_cache.lemma_offset_wf(lead.asset, period@);
            }
            Ok((offset_price(e.a2a, lead.ap1), offset_price(e.a2b, lead.bp1)))
        },
    }
}

/// The taker's theoretical `(ask, bid)` for the lag of `lead`; only from an
/// estimator that holds a value.
pub fn get_theo_taker_price(lead: &Ticker, period: &str, offset_cache: &OffsetCache) -> (r: Result<(i128, i128), TheoPriceError>)
    requires
        lead.wf(),
        offset_cache.wf(),
    ensures
        match offset_cache.offset_for(lead.asset, period@) {
            None => r == Err::<(i128, i128), TheoPriceError>(TheoPriceError::OffsetMissing { asset: lead.asset }),
            Some(e) => if !e.init {
                r == Err::<(i128, i128), TheoPriceError>(TheoPriceError::OffsetNotInit { asset: lead.asset })
            } else {
                r.is_ok() && r.unwrap().0 == taker_theo(e, *lead).0 && r.unwrap().1 == taker_theo(e, *lead).1
            },
        },
        r.is_ok() ==> -THEO_MAX <= r.unwrap().0 <= THEO_MAX && -THEO_MAX <= r.unwrap().1 <= THEO_MAX,
{
    match offset_cache.get_offset(lead.asset, period) {
        None => Err(TheoPriceError::OffsetMissing { asset: lead.asset }),
        Some(e) => {
            if !e.init {
                return Err(TheoPriceError::OffsetNotInit { asset: lead.asset });
            }
            proof {
                offset_cache.lemma_offset_wf(lead.asset, period@);
            }
            Ok((offset_price(e.a2b, lead.bp1), offset_price(e.b2a, lead.ap1)))
        },
    }
}

} // verus!
