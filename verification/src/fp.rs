//! Fixed-point scalars and the exact integer arithmetic the geometry uses.
//!
//! A scalar is an `i64` holding a real value scaled by `FP_ONE` (2^16), so
//! one pixel is 65536 units. All derived quantities (lengths, offsets,
//! angles in radians or degrees) use the same scale. Division always
//! truncates toward zero, stated here once as `spec_scale_div`.

use vstd::prelude::*;

verus! {

/// One whole unit (one pixel, one radian, ...) in fixed-point scale.
pub const FP_ONE: i64 = 65536;

/// 2*pi in fixed-point scale, rounded to nearest: round(2*pi * 65536).
pub const FP_TAU: i64 = 411775;

/// pi in fixed-point scale, rounded down: floor(pi * 65536).
pub const FP_PI: i64 = 205887;

/// 180/pi in fixed-point scale, rounded to nearest: round(180/pi * 65536).
/// Multiplying an angle in radians by this and dividing by `FP_ONE`
/// converts it to degrees.
pub const FP_DEG_PER_RAD: i64 = 3754936;

/// Largest coordinate magnitude (in scalar units) the geometry accepts;
/// 2^29 units is 8192 pixels. The bound exists so that squares and
/// products of coordinates fit in 64 bits.
pub const COORD_LIMIT: i64 = 0x2000_0000;

/// A scalar within the accepted coordinate range.
pub open spec fn in_coord_range(v: i64) -> bool {
    -COORD_LIMIT <= v && v <= COORD_LIMIT
}

/// Integer square root: the largest r with r * r <= n.
pub open spec fn spec_isqrt(n: nat) -> nat
    decreases n,
{
    if n == 0 {
        0
    } else {
        let r = spec_isqrt((n - 1) as nat);
        if (r + 1) * (r + 1) <= n {
            r + 1
        } else {
            r
        }
    }
}

/// `spec_isqrt(n)` is the floor of the square root of `n`.
pub proof fn lemma_isqrt_bracket(n: nat)
    ensures
        spec_isqrt(n) * spec_isqrt(n) <= n,
        n < (spec_isqrt(n) + 1) * (spec_isqrt(n) + 1),
    decreases n,
{
    if n == 0 {
        assert(spec_isqrt(0) == 0);
        assert(1 * 1 == 1) by (nonlinear_arith);
    } else {
        lemma_isqrt_bracket((n - 1) as nat);
        let r = spec_isqrt((n - 1) as nat);
        if (r + 1) * (r + 1) <= n {
            assert(spec_isqrt(n) == r + 1);
            let s = spec_isqrt(n);
            assert(n < (s + 1) * (s + 1)) by (nonlinear_arith)
                requires
                    n - 1 < (r + 1) * (r + 1),
                    s == r + 1,
            ;
        } else {
            assert(spec_isqrt(n) == r);
        }
    }
}

/// Any r bracketed by its own square and the next square is the square root.
pub proof fn lemma_isqrt_unique(n: nat, a: nat)
    requires
        a * a <= n,
        n < (a + 1) * (a + 1),
    ensures
        a == spec_isqrt(n),
{
    lemma_isqrt_bracket(n);
    let b = spec_isqrt(n);
    assert(a == b) by (nonlinear_arith)
        requires
            a * a <= n,
            n < (a + 1) * (a + 1),
            b * b <= n,
            n < (b + 1) * (b + 1),
    ;
}

/// Integer square root by binary search.
pub fn isqrt_u64(n: u64) -> (r: u64)
    requires
        n < 0xFFFF_FFFE_0000_0001,
    ensures
        r == spec_isqrt(n as nat),
{
    if n == 0 {
        proof {
            assert(spec_isqrt(0) == 0);
        }
        return 0;
    }
    let mut lo: u64 = 0;
    let mut hi: u64 = 0xFFFF_FFFF;
    proof {
        assert(0xFFFF_FFFFu64 * 0xFFFF_FFFFu64 == 0xFFFF_FFFE_0000_0001u64) by (nonlinear_arith);
    }
    while lo + 1 < hi
        invariant
            lo < hi,
            hi <= 0xFFFF_FFFF,
            lo * lo <= n,
            n < hi * hi,
        decreases hi - lo,
    {
        let mid: u64 = lo + (hi - lo) / 2;
        proof {
            assert(mid < hi);
            assert(mid * mid < 0xFFFF_FFFFu64 * 0xFFFF_FFFFu64) by (nonlinear_arith)
                requires
                    mid < 0xFFFF_FFFFu64,
            ;
        }
        if mid * mid <= n {
            lo = mid;
        } else {
            hi = mid;
        }
    }
    proof {
        assert(hi == lo + 1);
        lemma_isqrt_unique(n as nat, lo as nat);
    }
    lo
}

/// Scale `v` by the ratio `num / den`, truncating toward zero: the
/// magnitude is multiplied, divided rounding down, and the sign of `v`
/// is restored.
pub open spec fn spec_scale_div(v: int, num: int, den: int) -> int {
    if v >= 0 {
        (v * num) / den
    } else {
        -(((-v) * num) / den)
    }
}

/// The scaled value has the sign of `v` and magnitude at most `|v| * num`.
pub proof fn lemma_scale_div_bound(v: int, num: int, den: int)
    requires
        num >= 0,
        den >= 1,
    ensures
        v >= 0 ==> 0 <= spec_scale_div(v, num, den) <= v * num,
        v < 0 ==> 0 <= -spec_scale_div(v, num, den) <= (-v) * num,
{
    if v >= 0 {
        assert(v * num >= 0) by (nonlinear_arith)
            requires
                v >= 0,
                num >= 0,
        ;
        vstd::arithmetic::div_mod::lemma_div_is_ordered(0, v * num, den);
        vstd::arithmetic::div_mod::lemma_div_nonincreasing(v * num, den);
    } else {
        assert((-v) * num >= 0) by (nonlinear_arith)
            requires
                v < 0,
                num >= 0,
        ;
        vstd::arithmetic::div_mod::lemma_div_is_ordered(0, (-v) * num, den);
        vstd::arithmetic::div_mod::lemma_div_nonincreasing((-v) * num, den);
    }
}

/// Scale `v` by `num / den` in executable code, truncating toward zero.
pub fn scale_div(v: i64, num: u64, den: u64) -> (r: i64)
    requires
        -0x4000_0000 <= v && v <= 0x4000_0000,
        num <= 0x4000_0000,
        1 <= den,
    ensures
        r == spec_scale_div(v as int, num as int, den as int),
{
    if v >= 0 {
        let mag: u64 = v as u64;
        proof {
            assert(mag * num <= 0x1000_0000_0000_0000u64) by (nonlinear_arith)
                requires
                    mag <= 0x4000_0000u64,
                    num <= 0x4000_0000u64,
            ;
        }
        let m: u64 = mag * num;
        let q: u64 = m / den;
        proof {
            vstd::arithmetic::div_mod::lemma_div_nonincreasing(m as int, den as int);
            vstd::arithmetic::div_mod::lemma_div_is_ordered(0, m as int, den as int);
            assert(q <= m);
        }
        q as i64
    } else {
        let mag: u64 = (-v) as u64;
        proof {
            assert(mag * num <= 0x1000_0000_0000_0000u64) by (nonlinear_arith)
                requires
                    mag <= 0x4000_0000u64,
                    num <= 0x4000_0000u64,
            ;
        }
        let m: u64 = mag * num;
        let q: u64 = m / den;
        proof {
            vstd::arithmetic::div_mod::lemma_div_nonincreasing(m as int, den as int);
            vstd::arithmetic::div_mod::lemma_div_is_ordered(0, m as int, den as int);
            assert(q <= m);
        }
        -(q as i64)
    }
}

/// The truncating scale stays within one denominator of the exact
/// ratio: `den * spec_scale_div(v, num, den)` differs from `v * num`
/// by less than `den`, in the direction of zero.
pub proof fn lemma_scale_div_error(v: int, num: int, den: int)
    requires
        num >= 0,
        den >= 1,
    ensures
        -den < den * spec_scale_div(v, num, den) - v * num,
        den * spec_scale_div(v, num, den) - v * num < den,
{
    if v >= 0 {
        let p = v * num;
        vstd::arithmetic::div_mod::lemma_fundamental_div_mod(p, den);
        assert(0 <= p % den < den);
        assert(den * (p / den) == p - p % den);
    } else {
        let p = (-v) * num;
        vstd::arithmetic::div_mod::lemma_fundamental_div_mod(p, den);
        assert(0 <= p % den < den);
        assert(den * (p / den) == p - p % den);
        assert(den * (-(p / den)) == -(den * (p / den))) by (nonlinear_arith);
        assert(v * num == -p) by (nonlinear_arith)
            requires
                p == (-v) * num,
        ;
    }
}

/// Two magnitudes scaled by the same truncating ratio keep their
/// proportion up to one rounding step each: the cross term
/// `a * ((b*l)/d) - b * ((a*l)/d)` stays within `[-a, b]`.
pub proof fn lemma_cross_div_bound(a: int, b: int, l: int, d: int)
    requires
        a >= 0,
        b >= 0,
        l >= 0,
        d >= 1,
    ensures
        -a <= a * ((b * l) / d) - b * ((a * l) / d) <= b,
{
    let qa = (a * l) / d;
    let ra = (a * l) % d;
    let qb = (b * l) / d;
    let rb = (b * l) % d;
    vstd::arithmetic::div_mod::lemma_fundamental_div_mod(a * l, d);
    vstd::arithmetic::div_mod::lemma_fundamental_div_mod(b * l, d);
    assert(0 <= ra < d && 0 <= rb < d);
    assert(d * (a * qb - b * qa) == b * ra - a * rb) by (nonlinear_arith)
        requires
            a * l == d * qa + ra,
            b * l == d * qb + rb,
    ;
    assert(b * ra <= b * (d - 1) && a * rb <= a * (d - 1) && b * ra >= 0 && a * rb >= 0)
        by (nonlinear_arith)
        requires
            0 <= ra < d,
            0 <= rb < d,
            a >= 0,
            b >= 0,
    ;
    assert(a * qb - b * qa <= b) by (nonlinear_arith)
        requires
            d * (a * qb - b * qa) <= b * (d - 1),
            d >= 1,
            b >= 0,
    ;
    assert(a * qb - b * qa >= -a) by (nonlinear_arith)
        requires
            d * (a * qb - b * qa) >= -(a * (d - 1)),
            d >= 1,
            a >= 0,
    ;
}

/// Clamp a scalar into `[-bound, bound]`.
pub open spec fn spec_clamp(v: int, bound: int) -> int {
    if v > bound {
        bound
    } else if v < -bound {
        -bound
    } else {
        v
    }
}

/// Clamp a scalar into `[-bound, bound]` in executable code.
pub fn clamp(v: i64, bound: i64) -> (r: i64)
    requires
        0 <= bound,
    ensures
        r == spec_clamp(v as int, bound as int),
        -bound <= r && r <= bound,
{
    if v > bound {
        bound
    } else if v < -bound {
        -bound
    } else {
        v
    }
}

} // verus!
