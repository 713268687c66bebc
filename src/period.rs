//! Period labels: `<decimal><S|M|H|D>`, read as a span of milliseconds.

use vstd::prelude::*;

verus! {

/// `0` to `9`: code points 48 to 57.
pub open spec fn is_digit(c: char) -> bool {
    48 <= c as u32 && c as u32 <= 57
}

/// Milliseconds in one unit of a suffix letter (`S`, `M`, `H`, `D`: code
/// points 83, 77, 72, 68); zero for any other character.
pub open spec fn unit_ms(c: char) -> nat {
    let u = c as u32;
    if u == 83 {
        1000
    } else if u == 77 {
        60_000
    } else if u == 72 {
        3_600_000
    } else if u == 68 {
        86_400_000
    } else {
        0
    }
}

/// The value of a decimal digit.
pub open spec fn digit_value(c: char) -> nat {
    (c as u32 - 48) as nat
}

/// The number written by a sequence of decimal digits.
pub open spec fn decimal_value(d: Seq<char>) -> nat
    decreases d.len(),
{
    if d.len() == 0 {
        0
    } else {
        decimal_value(d.drop_last()) * 10 + digit_value(d.last())
    }
}

/// One or more decimal digits followed by one of `S`, `M`, `H`, `D`.
pub open spec fn is_period_label(b: Seq<char>) -> bool {
    &&& b.len() >= 2
    &&& unit_ms(b.last()) > 0
    &&& forall|i: int| 0 <= i < b.len() - 1 ==> is_digit(#[trigger] b[i])
}

/// The span, in milliseconds, that a period label stands for.
pub open spec fn period_ms_of(b: Seq<char>) -> nat {
    decimal_value(b.drop_last()) * unit_ms(b.last())
}

/// A label that is well formed and whose span fits in a `u64`.
pub open spec fn is_valid_period(b: Seq<char>) -> bool {
    is_period_label(b) && period_ms_of(b) <= u64::MAX
}

proof fn lemma_ascii_code(c: char)
    requires
        c as u32 <= 127,
    ensures
        '\0' <= c <= '\u{7f}',
{
}

proof fn lemma_decimal_prefix_le(d: Seq<char>, i: int)
    requires
        0 <= i <= d.len(),
        forall|j: int| 0 <= j < d.len() ==> is_digit(#[trigger] d[j]),
    ensures
        decimal_value(d.take(i)) <= decimal_value(d),
    decreases d.len(),
{
    if i == d.len() {
        assert(d.take(i) =~= d);
    } else {
        let p = d.drop_last();
        assert forall|j: int| 0 <= j < p.len() implies is_digit(#[trigger] p[j]) by {
            assert(p[j] == d[j]);
        }
        lemma_decimal_prefix_le(p, i);
        assert(p.take(i) =~= d.take(i));
    }
}

fn unit_of(b: u8, c: Ghost<char>) -> (r: u64)
    requires
        b as u32 == c@ as u32,
    ensures
        r == unit_ms(c@),
{
    if b == 83 {
        1000
    } else if b == 77 {
        60_000
    } else if b == 72 {
        3_600_000
    } else if b == 68 {
        86_400_000
    } else {
        0
    }
}

/// Reads a period label; `None` when it is not `<decimal><S|M|H|D>` or its
/// span does not fit in a `u64`.
pub fn parse_period_ms(label: &str) -> (r: Option<u64>)
    ensures
        r.is_some() <==> is_valid_period(label@),
        r.is_some() ==> r.unwrap() == period_ms_of(label@),
{
    let ghost b = label@;
    if !label.is_ascii() {
        proof {
            let i = choose|i: int| 0 <= i < b.len() && !('\0' <= #[trigger] b[i] <= '\u{7f}');
            if is_period_label(b) {
                if i < b.len() - 1 {
                    assert(is_digit(b[i]));
                } else {
                    assert(unit_ms(b[i]) > 0);
                }
                lemma_ascii_code(b[i]);
            }
        }
        return None;
    }
    proof {
        vstd::string::is_ascii_spec_bytes(label);
    }
    let bytes = label.as_bytes();
    proof {
        assert forall|j: int| 0 <= j < b.len() implies (#[trigger] bytes@[j]) as u32 == b[j] as u32 by {
            assert('\0' <= b[j] <= '\u{7f}');
            assert(bytes@[j] == b[j] as u8);
        }
    }
    let n = bytes.len();
    if n < 2 {
        return None;
    }
    let unit = unit_of(bytes[n - 1], Ghost(b.last()));
    if unit == 0 {
        return None;
    }
    let digits = n - 1;
    let ghost d = b.drop_last();
    let mut acc: u64 = 0;
    let mut i: usize = 0;
    while i < digits
        invariant
            b == label@,
            bytes@.len() == b.len(),
            forall|j: int| 0 <= j < b.len() ==> (#[trigger] bytes@[j]) as u32 == b[j] as u32,
            unit == unit_ms(b.last()),
            unit > 0,
            n == b.len(),
            digits == n - 1,
            d == b.drop_last(),
            0 <= i <= digits,
            acc == decimal_value(d.take(i as int)),
            forall|j: int| 0 <= j < i ==> is_digit(#[trigger] d[j]),
        decreases digits - i,
    {
        let c = bytes[i];
        if c < 48 || c > 57 {
            proof {
                assert(bytes@[i as int] as u32 == b[i as int] as u32);
                assert(d[i as int] == b[i as int]);
                assert(!is_digit(b[i as int]));
            }
            return None;
        }
        let dv = (c - 48) as u64;
        assert(d.take(i as int + 1).drop_last() =~= d.take(i as int));
        assert(bytes@[i as int] as u32 == b[i as int] as u32);
        assert(d[i as int] == b[i as int]);
        assert(d.take(i as int + 1).last() == d[i as int]);
        assert(digit_value(d[i as int]) == dv);
        assert(is_digit(d[i as int]));
        assert(decimal_value(d.take(i as int + 1)) == acc * 10 + dv);
        if acc > (u64::MAX - dv) / 10 {
            proof {
                assert(decimal_value(d.take(i as int + 1)) > u64::MAX) by (nonlinear_arith)
                    requires
                        decimal_value(d.take(i as int + 1)) == acc * 10 + dv,
                        acc > (u64::MAX - dv) / 10,
                        dv <= 9,
                ;
                if is_period_label(b) {
                    assert forall|j: int| 0 <= j < d.len() implies is_digit(#[trigger] d[j]) by {
                        assert(d[j] == b[j]);
                    }
                    lemma_decimal_prefix_le(d, i as int + 1);
                    assert(period_ms_of(b) >= decimal_value(d)) by (nonlinear_arith)
                        requires
                            period_ms_of(b) == decimal_value(d) * unit_ms(b.last()),
                            unit_ms(b.last()) >= 1,
                    ;
                }
            }
            return None;
        }
        assert(acc * 10 + dv <= u64::MAX) by (nonlinear_arith)
            requires
                acc <= (u64::MAX - dv) / 10,
                dv <= 9,
        ;
        acc = acc * 10 + dv;
        i = i + 1;
    }
    assert(d.take(digits as int) =~= d);
    assert forall|j: int| 0 <= j < b.len() - 1 implies is_digit(#[trigger] b[j]) by {
        assert(d[j] == b[j]);
    }
    if acc > u64::MAX / unit {
        assert(acc * unit > u64::MAX) by (nonlinear_arith)
            requires
                acc > u64::MAX / unit,
                unit > 0,
        ;
        return None;
    }
    assert(acc * unit <= u64::MAX) by (nonlinear_arith)
        requires
            acc <= u64::MAX / unit,
            unit > 0,
    ;
    Some(acc * unit)
}

/// The span of a period label in milliseconds. A malformed label is a
/// configuration error; callers check it first with `parse_period_ms`.
pub fn get_period_ms(intval: &str) -> (r: u64)
    requires
        is_valid_period(intval@),
    ensures
        r == period_ms_of(intval@),
{
    match parse_period_ms(intval) {
        Some(v) => v,
        None => 0,
    }
}

} // verus!
