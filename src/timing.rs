use vstd::prelude::*;

verus! {

/// Nanoseconds in one second.
pub const NANOS_PER_SEC: u128 = 1_000_000_000;

/// A rational tick length in seconds: one tick lasts `num / den` seconds.
#[derive(Clone, Copy, Debug, PartialEq, Eq, Structural)]
pub struct Timebase {
    pub num: i64,
    pub den: i64,
}

pub open spec fn abs(a: int) -> int {
    if a >= 0 { a } else { -a }
}

/// Integer division rounding toward zero, as the integer part of a rational.
pub open spec fn div_trunc(a: int, b: int) -> int
    recommends
        b != 0,
{
    if (a >= 0) == (b > 0) || abs(a) / abs(b) == 0 {
        abs(a) / abs(b)
    } else {
        -(abs(a) / abs(b))
    }
}

/// The exact tick count times the tick length, in nanoseconds, before rounding:
/// the numerator over `den`.
pub open spec fn scaled_ticks(pts: int, tb: Timebase) -> int {
    pts * 1_000_000_000 * tb.num
}

/// A presentation timestamp in ticks, as nanoseconds: `pts * 1e9 * num / den`,
/// rounded toward zero.
pub open spec fn pts_nanos_spec(pts: int, tb: Timebase) -> int {
    div_trunc(scaled_ticks(pts, tb), tb.den as int)
}

/// Whether a timestamp can be converted: a non-zero denominator, an
/// intermediate product that fits in 128 bits, and a result that fits in `i64`.
pub open spec fn pts_convertible(pts: int, tb: Timebase) -> bool {
    &&& tb.den != 0
    &&& abs(scaled_ticks(pts, tb)) <= u128::MAX
    &&& i64::MIN <= pts_nanos_spec(pts, tb) <= i64::MAX
}

fn magnitude(x: i64) -> (r: u128)
    ensures
        r as int == abs(x as int),
{
    if x < 0 {
        (-(x as i128)) as u128
    } else {
        x as u128
    }
}

/// Converts a presentation timestamp in ticks to nanoseconds through its
/// timebase, rounding toward zero; `None` where that cannot be done.
pub fn pts_to_nanos(pts: i64, tb: Timebase) -> (r: Option<i64>)
    ensures
        r.is_some() <==> pts_convertible(pts as int, tb),
        r.is_some() ==> r.unwrap() as int == pts_nanos_spec(pts as int, tb),
{
    if tb.den == 0 {
        return None;
    }
    let p = magnitude(pts);
    let n = magnitude(tb.num);
    let d = magnitude(tb.den);
    assert(p * 1_000_000_000 <= 0x8000_0000_0000_0000u128 * 1_000_000_000) by (nonlinear_arith)
        requires
            p <= 0x8000_0000_0000_0000u128,
    ;
    let a = p * NANOS_PER_SEC;
    proof {
        lemma_scaled_parts(pts as int, tb);
    }
    if n != 0 && a > u128::MAX / n {
        assert(a * n > u128::MAX) by (nonlinear_arith)
            requires
                n > 0,
                a > u128::MAX / n,
        ;
        return None;
    }
    assert(a * n <= u128::MAX) by (nonlinear_arith)
        requires
            n == 0 || a <= u128::MAX / n,
    ;
    let m = a * n;
    let q = m / d;
    let scaled_nonneg = m == 0 || (pts < 0) == (tb.num < 0);
    let positive = scaled_nonneg == (tb.den > 0);
    if positive || q == 0 {
        if q > i64::MAX as u128 {
            return None;
        }
        Some(q as i64)
    } else {
        if q > 0x8000_0000_0000_0000u128 {
            return None;
        }
        Some((-(q as i128)) as i64)
    }
}

/// The magnitude and sign of the scaled tick count.
proof fn lemma_scaled_parts(pts: int, tb: Timebase)
    ensures
        abs(scaled_ticks(pts, tb)) == abs(pts) * 1_000_000_000 * abs(tb.num as int),
        (scaled_ticks(pts, tb) >= 0) <==> (scaled_ticks(pts, tb) == 0 || (pts < 0) == (tb.num < 0)),
        scaled_ticks(pts, tb) == 0 <==> (pts == 0 || tb.num == 0),
{
    let n = tb.num as int;
    if pts >= 0 && n >= 0 {
        assert(pts * 1_000_000_000 * n >= 0) by (nonlinear_arith)
            requires pts >= 0, n >= 0;
    } else if pts < 0 && n < 0 {
        assert(pts * 1_000_000_000 * n > 0) by (nonlinear_arith)
            requires pts < 0, n < 0;
        assert(pts * 1_000_000_000 * n == (-pts) * 1_000_000_000 * (-n)) by (nonlinear_arith);
    } else if pts < 0 {
        assert(pts * 1_000_000_000 * n <= 0) by (nonlinear_arith)
            requires pts < 0, n >= 0;
        assert(-(pts * 1_000_000_000 * n) == (-pts) * 1_000_000_000 * n) by (nonlinear_arith);
    } else {
        assert(pts * 1_000_000_000 * n <= 0) by (nonlinear_arith)
            requires pts >= 0, n < 0;
        assert(-(pts * 1_000_000_000 * n) == pts * 1_000_000_000 * (-n)) by (nonlinear_arith);
    }
    assert(pts * 1_000_000_000 * n == 0 <==> (pts == 0 || n == 0)) by (nonlinear_arith);
}

} // verus!
