//! Canonical value model: the output ranges of the virtual pad and the affine
//! map that carries a value from one range into another.

use vstd::prelude::*;

verus! {

/// Lowest value of a canonical analog stick axis.
pub const MIN_OUT_ANALOG: i32 = -32768;

/// Highest value of a canonical analog stick axis.
pub const MAX_OUT_ANALOG: i32 = 32767;

/// Lowest value of a canonical hat axis.
pub const MIN_OUT_HAT: i32 = -1;

/// Highest value of a canonical hat axis.
pub const MAX_OUT_HAT: i32 = 1;

/// Lowest value of a canonical trigger axis.
pub const MIN_OUT_TRIG: i32 = 0;

/// Highest value of a canonical trigger axis.
pub const MAX_OUT_TRIG: i32 = 255;

/// Quotient of `a` by `b` rounded toward zero, for `b != 0`.
pub open spec fn trunc_div(a: int, b: int) -> int
    recommends
        b != 0,
{
    if a >= 0 {
        if b > 0 {
            a / b
        } else {
            -(a / (-b))
        }
    } else {
        if b > 0 {
            -((-a) / b)
        } else {
            (-a) / (-b)
        }
    }
}

/// The affine map that sends `min` to `outmin` and `max` to `outmax`, with the
/// quotient rounded toward zero and no rounding correction.
pub open spec fn affine(x: int, min: int, max: int, outmin: int, outmax: int) -> int
    recommends
        min != max,
{
    trunc_div((x - min) * (outmax - outmin), max - min) + outmin
}

/// The value of the 32-bit event field that is nearest to `v`.
pub open spec fn clamp_i32(v: int) -> int {
    if v < i32::MIN {
        i32::MIN as int
    } else if v > i32::MAX {
        i32::MAX as int
    } else {
        v
    }
}

/// What `remap` returns: the affine image of `x`, held to the 32-bit range of
/// an event value.
pub open spec fn remap_value(x: i32, min: i32, max: i32, outmin: i32, outmax: i32) -> int
    recommends
        min != max,
{
    clamp_i32(affine(x as int, min as int, max as int, outmin as int, outmax as int))
}

proof fn lemma_product_bound(a: int, b: int)
    requires
        -0x1_0000_0000 < a < 0x1_0000_0000,
        -0x1_0000_0000 < b < 0x1_0000_0000,
    ensures
        -0x1_0000_0000_0000_0000 < a * b < 0x1_0000_0000_0000_0000,
        -0x8000_0000 <= a <= 0x8000_0000 && -0x8000_0000 <= b <= 0x8000_0000
            ==> -0x4000_0000_0000_0000 <= a * b <= 0x4000_0000_0000_0000,
{
    if -0x8000_0000 <= a <= 0x8000_0000 && -0x8000_0000 <= b <= 0x8000_0000 {
        assert(-0x4000_0000_0000_0000 <= a * b <= 0x4000_0000_0000_0000) by (nonlinear_arith)
            requires
                -0x8000_0000 <= a <= 0x8000_0000,
                -0x8000_0000 <= b <= 0x8000_0000,
        ;
    }
    assert(-0x1_0000_0000_0000_0000 < a * b < 0x1_0000_0000_0000_0000) by (nonlinear_arith)
        requires
            -0x1_0000_0000 < a < 0x1_0000_0000,
            -0x1_0000_0000 < b < 0x1_0000_0000,
    ;
}

proof fn lemma_quotient_bound(n: int, d: int)
    requires
        0 <= n,
        0 < d,
    ensures
        0 <= n / d <= n,
{
    assert(0 <= n / d <= n) by (nonlinear_arith)
        requires
            0 <= n,
            0 < d,
    ;
}

/// Carries `x` from the range `min..max` into the range `outmin..outmax`:
/// `(x - min) * (outmax - outmin) / (max - min) + outmin`, the division
/// rounded toward zero. The arithmetic is exact; a result beyond the 32-bit
/// range of an event value is held to the nearest end of that range.
pub fn remap(x: i32, min: i32, max: i32, outmin: i32, outmax: i32) -> (r: i32)
    requires
        min != max,
    ensures
        r == remap_value(x, min, max, outmin, outmax),
        i32::MIN <= affine(x as int, min as int, max as int, outmin as int, outmax as int)
            <= i32::MAX ==> r == affine(
            x as int,
            min as int,
            max as int,
            outmin as int,
            outmax as int,
        ),
{
    let dx: i128 = x as i128 - min as i128;
    let dout: i128 = outmax as i128 - outmin as i128;
    let den: i128 = max as i128 - min as i128;
    proof {
        lemma_product_bound(dx as int, dout as int);
    }
    let num: i128 = dx * dout;
    let n: u128 = if num < 0 {
        (-num) as u128
    } else {
        num as u128
    };
    let d: u128 = if den < 0 {
        (-den) as u128
    } else {
        den as u128
    };
    let q: u128 = n / d;
    proof {
        lemma_quotient_bound(n as int, d as int);
    }
    let negative: bool = (num < 0) != (den < 0);
    let scaled: i128 = if negative {
        -(q as i128)
    } else {
        q as i128
    };
    let wide: i128 = scaled + outmin as i128;
    assert(wide == affine(x as int, min as int, max as int, outmin as int, outmax as int));
    if wide < -2147483648 {
        -2147483648
    } else if wide > 2147483647 {
        2147483647
    } else {
        wide as i32
    }
}

/// The axis value that a button gives when it stands in for an axis: the
/// scale of the target times the digital value of the button, 1 while it is
/// pressed and 0 once it is released. A product beyond the 32-bit range of an
/// event value is held to the nearest end of that range.
pub fn scale_button(scale: i32, value: i32) -> (r: i32)
    ensures
        r == clamp_i32(scale * value),
        value == 1 ==> r == scale,
        value == 0 ==> r == 0,
{
    proof {
        lemma_product_bound(scale as int, value as int);
    }
    let wide: i64 = (scale as i64) * (value as i64);
    if wide < -2147483648 {
        -2147483648
    } else if wide > 2147483647 {
        2147483647
    } else {
        wide as i32
    }
}

/// Dividing a multiple of `d` by `d` gives the other factor back, whatever
/// the signs.
proof fn lemma_trunc_div_of_multiple(k: int, d: int)
    requires
        d != 0,
    ensures
        trunc_div(d * k, d) == k,
{
    let m: int = if d > 0 {
        d
    } else {
        -d
    };
    let j: int = if d * k >= 0 {
        d * k
    } else {
        -(d * k)
    };
    let a: int = if k >= 0 {
        k
    } else {
        -k
    };
    assert(j == m * a) by (nonlinear_arith)
        requires
            m == if d > 0 {
                d
            } else {
                -d
            },
            j == if d * k >= 0 {
                d * k
            } else {
                -(d * k)
            },
            a == if k >= 0 {
                k
            } else {
                -k
            },
            d != 0,
    ;
    assert((m * a) / m == a) by (nonlinear_arith)
        requires
            m > 0,
            a >= 0,
    ;
    assert(d * k >= 0 <==> (k == 0 || (k > 0 <==> d > 0))) by (nonlinear_arith)
        requires
            d != 0,
    ;
}

/// The ends of the source range are carried onto the ends of the target
/// range, for every source range that is not a single point.
pub proof fn lemma_remap_endpoints(min: i32, max: i32, outmin: i32, outmax: i32)
    requires
        min != max,
    ensures
        remap_value(min, min, max, outmin, outmax) == outmin,
        remap_value(max, min, max, outmin, outmax) == outmax,
{
    let d: int = max - min;
    let k: int = outmax - outmin;
    lemma_trunc_div_of_multiple(k, d);
    assert((min - min) * k == 0) by (nonlinear_arith);
    if d > 0 {
        assert(0int / d == 0) by (nonlinear_arith)
            requires
                d > 0,
        ;
    } else {
        assert(0int / (-d) == 0) by (nonlinear_arith)
            requires
                d < 0,
        ;
    }
}

/// A value inside an ascending source range lands between the ends of the
/// target range, so nothing is cut off by the 32-bit range.
pub proof fn lemma_remap_stays_in_range(x: i32, min: i32, max: i32, outmin: i32, outmax: i32)
    requires
        min < max,
        min <= x <= max,
    ensures
        remap_value(x, min, max, outmin, outmax) == affine(
            x as int,
            min as int,
            max as int,
            outmin as int,
            outmax as int,
        ),
        outmin <= outmax ==> outmin <= remap_value(x, min, max, outmin, outmax) <= outmax,
        outmax <= outmin ==> outmax <= remap_value(x, min, max, outmin, outmax) <= outmin,
{
    let dx: int = x - min;
    let d: int = max - min;
    let k: int = outmax - outmin;
    if k >= 0 {
        assert(0 <= dx * k <= d * k) by (nonlinear_arith)
            requires
                0 <= dx <= d,
                k >= 0,
        ;
        assert(0 <= (dx * k) / d <= k) by (nonlinear_arith)
            requires
                0 <= dx * k <= d * k,
                d > 0,
        ;
    } else {
        assert(0 <= -(dx * k) <= d * (-k)) by (nonlinear_arith)
            requires
                0 <= dx <= d,
                k < 0,
        ;
        assert(0 <= (-(dx * k)) / d <= -k) by (nonlinear_arith)
            requires
                0 <= -(dx * k) <= d * (-k),
                d > 0,
        ;
    }
}

} // verus!
