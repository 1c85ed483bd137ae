//! Signed 16.16 fixed-point arithmetic.
//!
//! The integer value `v` stands for the real number `v / 65536`.  Products
//! and quotients are computed on magnitudes and truncated toward zero, so
//! every operation has an exact integer specification.

use vstd::prelude::*;

verus! {

/// One in 16.16 fixed point.
pub const FP: i64 = 65536;

/// Magnitude cap for operands of the fixed-point helpers.  Every quantity the
/// pipeline keeps is guarded to stay at or below this bound (2^50), which
/// leaves ample room in the 128-bit intermediates.
pub const FP_ABS_MAX: i64 = 0x4_0000_0000_0000;

/// Magnitude of a mathematical integer.
pub open spec fn fp_abs(a: int) -> int {
    if a < 0 {
        -a
    } else {
        a
    }
}

/// Sign factor of a product or quotient of two values.
pub open spec fn fp_sign(a: int, b: int) -> int {
    if (a < 0) <==> (b < 0) {
        1
    } else {
        -1
    }
}

/// Fixed-point product: (a/FP) * (b/FP) scaled back by FP, magnitude
/// truncated toward zero.
pub open spec fn fp_mul_spec(a: int, b: int) -> int {
    fp_sign(a, b) * (fp_abs(a) * fp_abs(b) / (FP as int))
}

/// Fixed-point quotient: (a/FP) / (b/FP) scaled back by FP, magnitude
/// truncated toward zero.
pub open spec fn fp_div_spec(a: int, b: int) -> int {
    fp_sign(a, b) * (fp_abs(a) * (FP as int) / fp_abs(b))
}

/// A value the fixed-point helpers accept.
pub open spec fn fp_wf(a: i64) -> bool {
    -FP_ABS_MAX <= a <= FP_ABS_MAX
}

/// |a * b| == |a| * |b|, stated over the magnitudes used by the specs.
pub proof fn lemma_abs_mul_bound(a: int, b: int, bound_a: int, bound_b: int)
    by (nonlinear_arith)
    requires
        fp_abs(a) <= bound_a,
        fp_abs(b) <= bound_b,
    ensures
        fp_abs(a) * fp_abs(b) <= bound_a * bound_b,
{
}

/// Dividing a bounded non-negative value by a positive constant keeps the bound order.
pub proof fn lemma_div_bound(x: int, y: int, d: int)
    by (nonlinear_arith)
    requires
        0 <= x <= y,
        d >= 1,
    ensures
        0 <= x / d <= y / d,
{
}

/// Multiplying by zero gives zero, whichever side the zero stands on.
pub proof fn lemma_fp_mul_zero(a: int)
    ensures
        fp_mul_spec(a, 0) == 0,
        fp_mul_spec(0, a) == 0,
{
    assert(fp_abs(a) * fp_abs(0) == 0) by (nonlinear_arith);
    assert(fp_abs(0) * fp_abs(a) == 0) by (nonlinear_arith);
}

/// Multiplying a magnitude by one (in fixed point) returns the magnitude.
pub proof fn lemma_fp_mul_unit(a: int)
    ensures
        fp_mul_spec(a, FP as int) == a,
        fp_mul_spec(a, -(FP as int)) == -a,
{
    assert(fp_abs(a) * fp_abs(FP as int) / (FP as int) == fp_abs(a)) by (nonlinear_arith)
        requires
            fp_abs(a) >= 0,
    ;
    assert(fp_abs(a) * fp_abs(-(FP as int)) / (FP as int) == fp_abs(a)) by (nonlinear_arith)
        requires
            fp_abs(a) >= 0,
    ;
}

fn abs_u128(a: i64) -> (r: u128)
    ensures
        r == fp_abs(a as int),
{
    if a < 0 {
        (-(a as i128)) as u128
    } else {
        a as u128
    }
}

/// Fixed-point multiplication.  The magnitude requirement keeps the result in
/// the guarded range, so callers must bound their operands first.
pub fn fp_mul(a: i64, b: i64) -> (r: i64)
    requires
        fp_wf(a),
        fp_wf(b),
        fp_abs(a as int) * fp_abs(b as int) / (FP as int) <= FP_ABS_MAX as int,
    ensures
        r == fp_mul_spec(a as int, b as int),
        fp_abs(r as int) == fp_abs(a as int) * fp_abs(b as int) / (FP as int),
{
    let ua = abs_u128(a);
    let ub = abs_u128(b);
    proof {
        lemma_abs_mul_bound(a as int, b as int, FP_ABS_MAX as int, FP_ABS_MAX as int);
    }
    let q = (ua * ub) / (FP as u128);
    if (a < 0) != (b < 0) {
        -(q as i64)
    } else {
        q as i64
    }
}

/// Fixed-point division, truncating toward zero.
pub fn fp_div(a: i64, b: i64) -> (r: i64)
    requires
        fp_wf(a),
        b != 0,
        fp_abs(a as int) * (FP as int) / fp_abs(b as int) <= FP_ABS_MAX as int,
    ensures
        r == fp_div_spec(a as int, b as int),
        fp_abs(r as int) == fp_abs(a as int) * (FP as int) / fp_abs(b as int),
{
    let ua = abs_u128(a);
    let ub = abs_u128(b);
    proof {
        lemma_abs_mul_bound(a as int, FP as int, FP_ABS_MAX as int, FP as int);
    }
    let q = (ua * (FP as u128)) / ub;
    if (a < 0) != (b < 0) {
        -(q as i64)
    } else {
        q as i64
    }
}

/// Guard bound for per-splat geometry: intermediate projection results whose
/// magnitude passes 2^45 make the splat fall to the range cull.
pub const GMAX: i64 = 0x2000_0000_0000;

/// Fixed-point product guarded against the geometry range: `None` when an
/// operand or the result leaves it.
pub open spec fn gmul_spec(a: int, b: int) -> Option<int> {
    if fp_abs(a) > GMAX || fp_abs(b) > GMAX {
        None
    } else {
        let v = fp_mul_spec(a, b);
        if fp_abs(v) > GMAX {
            None
        } else {
            Some(v)
        }
    }
}

/// Fixed-point quotient guarded against the geometry range.
pub open spec fn gdiv_spec(a: int, b: int) -> Option<int> {
    if b == 0 || fp_abs(a) > GMAX {
        None
    } else {
        let v = fp_div_spec(a, b);
        if fp_abs(v) > GMAX {
            None
        } else {
            Some(v)
        }
    }
}

/// Guarded fixed-point multiplication.
pub fn gmul(a: i64, b: i64) -> (r: Option<i64>)
    ensures
        r is Some <==> gmul_spec(a as int, b as int) is Some,
        r is Some ==> r.unwrap() == gmul_spec(a as int, b as int).unwrap(),
        r is Some ==> fp_abs(r.unwrap() as int) <= GMAX,
{
    if a > GMAX || a < -GMAX || b > GMAX || b < -GMAX {
        return None;
    }
    let ua = abs_u128(a);
    let ub = abs_u128(b);
    proof {
        lemma_abs_mul_bound(a as int, b as int, GMAX as int, GMAX as int);
    }
    let q = (ua * ub) / (FP as u128);
    if q > GMAX as u128 {
        return None;
    }
    if (a < 0) != (b < 0) {
        Some(-(q as i64))
    } else {
        Some(q as i64)
    }
}

/// Guarded fixed-point division.
pub fn gdiv(a: i64, b: i64) -> (r: Option<i64>)
    ensures
        r is Some <==> gdiv_spec(a as int, b as int) is Some,
        r is Some ==> r.unwrap() == gdiv_spec(a as int, b as int).unwrap(),
        r is Some ==> fp_abs(r.unwrap() as int) <= GMAX,
{
    if b == 0 || a > GMAX || a < -GMAX {
        return None;
    }
    let ua = abs_u128(a);
    let ub = abs_u128(b);
    proof {
        lemma_abs_mul_bound(a as int, FP as int, GMAX as int, FP as int);
    }
    let q = (ua * (FP as u128)) / ub;
    if q > GMAX as u128 {
        return None;
    }
    if (a < 0) != (b < 0) {
        Some(-(q as i64))
    } else {
        Some(q as i64)
    }
}

/// Fixed-point multiplication with ghost operand bounds, for call sites with
/// static ranges.
pub fn fp_mul_b(a: i64, b: i64, Ghost(ba): Ghost<int>, Ghost(bb): Ghost<int>) -> (r: i64)
    requires
        fp_abs(a as int) <= ba,
        fp_abs(b as int) <= bb,
        ba <= FP_ABS_MAX as int,
        bb <= FP_ABS_MAX as int,
        ba * bb <= (FP_ABS_MAX as int) * (FP as int),
    ensures
        r == fp_mul_spec(a as int, b as int),
        fp_abs(r as int) <= ba * bb / (FP as int),
{
    proof {
        lemma_abs_mul_bound(a as int, b as int, ba, bb);
        lemma_div_bound(fp_abs(a as int) * fp_abs(b as int), ba * bb, FP as int);
    }
    fp_mul(a, b)
}

/// Floor of the square root of a non-negative integer.
pub open spec fn sqrt_floor(x: int) -> int
    decreases x,
{
    if x < 1 {
        0
    } else {
        let p = sqrt_floor(x - 1);
        if (p + 1) * (p + 1) <= x {
            p + 1
        } else {
            p
        }
    }
}

/// `sqrt_floor` brackets its argument between consecutive squares.
pub proof fn lemma_sqrt_floor_bracket(x: int)
    requires
        x >= 0,
    ensures
        sqrt_floor(x) >= 0,
        sqrt_floor(x) * sqrt_floor(x) <= x,
        (sqrt_floor(x) + 1) * (sqrt_floor(x) + 1) > x,
    decreases x,
{
    if x >= 1 {
        lemma_sqrt_floor_bracket(x - 1);
        let p = sqrt_floor(x - 1);
        assert((p + 1) * (p + 1) > x - 1);
        if (p + 1) * (p + 1) <= x {
            assert((p + 2) * (p + 2) > (p + 1) * (p + 1)) by (nonlinear_arith)
                requires
                    p >= 0,
            ;
        }
    }
}

/// Any value bracketed between consecutive squares is the floor square root.
pub proof fn lemma_sqrt_floor_unique(x: int, r: int)
    requires
        x >= 0,
        r >= 0,
        r * r <= x,
        (r + 1) * (r + 1) > x,
    ensures
        r == sqrt_floor(x),
{
    lemma_sqrt_floor_bracket(x);
    let s = sqrt_floor(x);
    if r < s {
        assert((r + 1) * (r + 1) <= s * s) by (nonlinear_arith)
            requires
                0 <= r < s,
        ;
    }
    if s < r {
        assert((s + 1) * (s + 1) <= r * r) by (nonlinear_arith)
            requires
                0 <= s < r,
        ;
    }
}

/// Integer square root of a wide value: `sqrt_floor` of anything up to 2^96.
pub fn isqrt_u128(x: u128) -> (r: u64)
    requires
        x < 0x1_0000_0000_0000_0000_0000_0000,
    ensures
        r == sqrt_floor(x as int),
{
    let mut lo: u64 = 0;
    let mut hi: u64 = 0x1_0000_0000_0000;
    proof {
        assert((0x1_0000_0000_0000int) * (0x1_0000_0000_0000int) > x as int) by (nonlinear_arith)
            requires
                x < 0x1_0000_0000_0000_0000_0000_0000u128,
        ;
    }
    while lo + 1 < hi
        invariant
            lo < hi <= 0x1_0000_0000_0000,
            (lo as int) * (lo as int) <= x as int,
            (hi as int) * (hi as int) > x as int,
        decreases hi - lo,
    {
        let mid = lo + (hi - lo) / 2;
        proof {
            assert((mid as int) * (mid as int) < 0x1_0000_0000_0000_0000_0000_0000int)
                by (nonlinear_arith)
                requires
                    mid < 0x1_0000_0000_0000u64,
            ;
        }
        if (mid as u128) * (mid as u128) <= x {
            lo = mid;
        } else {
            hi = mid;
        }
    }
    proof {
        lemma_sqrt_floor_unique(x as int, lo as int);
    }
    lo
}

/// Integer square root: the unique `r` with `r*r <= x < (r+1)*(r+1)`.
pub fn isqrt_u64(x: u64) -> (r: u64)
    ensures
        r == sqrt_floor(x as int),
        (r as int) * (r as int) <= x as int,
        ((r as int) + 1) * ((r as int) + 1) > x as int,
{
    let mut lo: u64 = 0;
    let mut hi: u64 = 0x1_0000_0000;
    proof {
        assert((0x1_0000_0000int) * (0x1_0000_0000int) > x as int) by (nonlinear_arith)
            requires
                x <= u64::MAX,
        ;
    }
    while lo + 1 < hi
        invariant
            lo < hi <= 0x1_0000_0000,
            (lo as int) * (lo as int) <= x as int,
            (hi as int) * (hi as int) > x as int,
        decreases hi - lo,
    {
        let mid = lo + (hi - lo) / 2;
        proof {
            assert((mid as int) * (mid as int) <= 0x1_0000_0000_0000_0000int) by (nonlinear_arith)
                requires
                    mid <= 0x1_0000_0000u64,
            ;
        }
        if (mid as u128) * (mid as u128) <= x as u128 {
            lo = mid;
        } else {
            hi = mid;
        }
    }
    proof {
        lemma_sqrt_floor_unique(x as int, lo as int);
    }
    lo
}

} // verus!
