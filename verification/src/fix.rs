//! Decimal fixed-point scalars.
//!
//! A scalar is an `i64` counting millionths: the value `1_000_000` stands for
//! one. All camera quantities (angles in radians, distances, sensitivities,
//! seconds) use this representation. Multiplication and division rescale by
//! `SCALE` and truncate toward zero, matching the sign behaviour of the
//! hardware division they are built from. Saturating variants clip results
//! into `[-FIX_SAT, FIX_SAT]` so that state updates stay total.

use vstd::prelude::*;

verus! {

/// Number of fixed-point units in one: scalars count millionths.
pub const SCALE: i64 = 1_000_000;

/// Saturation limit for state-carrying scalars; well inside `i64` so that a
/// sum of two saturated values still fits.
pub const FIX_SAT: i64 = 1_000_000_000_000_000_000;

/// Bound demanded of per-frame inputs (deltas, sensitivities, frame time,
/// configured ranges), so that products of three of them stay inside the
/// saturation limit.
pub const FIX_BOUND: i64 = 2_147_483_648;

/// Absolute value of a mathematical integer.
pub open spec fn fx_abs(a: int) -> int {
    if a < 0 {
        -a
    } else {
        a
    }
}

/// Clip into `[-FIX_SAT, FIX_SAT]`.
pub open spec fn sat_clip(v: int) -> int {
    if v > FIX_SAT as int {
        FIX_SAT as int
    } else if v < -(FIX_SAT as int) {
        -(FIX_SAT as int)
    } else {
        v
    }
}

/// Clip into `[-FIX_BOUND, FIX_BOUND]`.
pub open spec fn bound_clip(v: int) -> int {
    if v > FIX_BOUND as int {
        FIX_BOUND as int
    } else if v < -(FIX_BOUND as int) {
        -(FIX_BOUND as int)
    } else {
        v
    }
}

/// Fixed-point product: `a * b / SCALE`, truncated toward zero.
pub open spec fn fx_mul(a: int, b: int) -> int {
    let m = (fx_abs(a) * fx_abs(b)) / (SCALE as int);
    if (a < 0) != (b < 0) {
        -m
    } else {
        m
    }
}

/// Fixed-point quotient: `a * SCALE / b`, truncated toward zero.
pub open spec fn fx_div(a: int, b: int) -> int
    recommends
        b != 0,
{
    let m = (fx_abs(a) * (SCALE as int)) / fx_abs(b);
    if (a < 0) != (b < 0) {
        -m
    } else {
        m
    }
}

/// Saturating fixed-point product.
pub open spec fn fx_mul_sat(a: int, b: int) -> int {
    sat_clip(fx_mul(a, b))
}

/// Saturating fixed-point quotient.
pub open spec fn fx_div_sat(a: int, b: int) -> int
    recommends
        b != 0,
{
    sat_clip(fx_div(a, b))
}

/// Saturating sum.
pub open spec fn sat_add(a: int, b: int) -> int {
    sat_clip(a + b)
}

/// Saturating difference.
pub open spec fn sat_sub(a: int, b: int) -> int {
    sat_clip(a - b)
}

/// Sum clipped into the input bound; used when accumulating raw input.
pub open spec fn bound_add(a: int, b: int) -> int {
    bound_clip(a + b)
}

/// Clamp into an inclusive range.
pub open spec fn fx_clamp(x: int, lo: int, hi: int) -> int
    recommends
        lo <= hi,
{
    if x < lo {
        lo
    } else if x > hi {
        hi
    } else {
        x
    }
}

/// A product of non-negative factors is monotone in both bounds.
pub proof fn lemma_mul_le(a: int, b: int, ca: int, cb: int)
    requires
        0 <= a <= ca,
        0 <= b <= cb,
    ensures
        0 <= a * b <= ca * cb,
{
    assert(0 <= a * b <= ca * cb) by (nonlinear_arith)
        requires
            0 <= a <= ca,
            0 <= b <= cb,
    ;
}

/// A product of factors with bounded magnitudes has bounded magnitude.
pub proof fn lemma_mul_abs_le(a: int, b: int, ca: int, cb: int)
    requires
        fx_abs(a) <= ca,
        fx_abs(b) <= cb,
    ensures
        -(ca * cb) <= a * b <= ca * cb,
        fx_abs(a * b) == fx_abs(a) * fx_abs(b),
{
    assert(-(ca * cb) <= a * b <= ca * cb && fx_abs(a * b) == fx_abs(a) * fx_abs(b))
        by (nonlinear_arith)
        requires
            fx_abs(a) <= ca,
            fx_abs(b) <= cb,
            fx_abs(a) == if a < 0 { -a } else { a },
            fx_abs(b) == if b < 0 { -b } else { b },
            fx_abs(a * b) == if a * b < 0 { -(a * b) } else { a * b },
    ;
}

/// A product of magnitudes bounded by `ba` and `bb` has, after rescaling,
/// magnitude at most `ba * bb / SCALE`.
pub proof fn lemma_fx_mul_bound(a: int, b: int, ba: int, bb: int)
    requires
        fx_abs(a) <= ba,
        fx_abs(b) <= bb,
    ensures
        fx_abs(fx_mul(a, b)) <= (ba * bb) / (SCALE as int),
        fx_abs(fx_mul(a, b)) * (SCALE as int) <= ba * bb,
{
    let ma = fx_abs(a);
    let mb = fx_abs(b);
    assert(ma * mb <= ba * bb) by (nonlinear_arith)
        requires
            0 <= ma <= ba,
            0 <= mb <= bb,
    ;
    assert(0 <= ma * mb) by (nonlinear_arith)
        requires
            0 <= ma,
            0 <= mb,
    ;
    vstd::arithmetic::div_mod::lemma_div_is_ordered(ma * mb, ba * bb, SCALE as int);
    vstd::arithmetic::div_mod::lemma_fundamental_div_mod(ma * mb, SCALE as int);
    vstd::arithmetic::div_mod::lemma_mod_bound(ma * mb, SCALE as int);
    assert(((ma * mb) / (SCALE as int)) * (SCALE as int) <= ma * mb);
}

/// When the rescaled product is inside the saturation limit, the saturating
/// product is the exact one.
pub proof fn lemma_fx_mul_sat_exact(a: int, b: int)
    requires
        fx_abs(fx_mul(a, b)) <= FIX_SAT as int,
    ensures
        fx_mul_sat(a, b) == fx_mul(a, b),
{
}

/// Saturating fixed-point multiply: `a * b / SCALE` truncated toward zero,
/// clipped into `[-FIX_SAT, FIX_SAT]`.
pub fn mul_sat(a: i64, b: i64) -> (r: i64)
    ensures
        r as int == fx_mul_sat(a as int, b as int),
{
    proof {
        lemma_mul_abs_le(
            a as int,
            b as int,
            0x8000_0000_0000_0000,
            0x8000_0000_0000_0000,
        );
    }
    let p: i128 = (a as i128) * (b as i128);
    let neg: bool = p < 0;
    let mag: u128 = if neg {
        (-p) as u128
    } else {
        p as u128
    };
    let q: u128 = mag / (SCALE as u128);
    let qc: u128 = if q > FIX_SAT as u128 {
        FIX_SAT as u128
    } else {
        q
    };
    proof {
        let pi = (a as int) * (b as int);
        assert(p as int == pi);
        assert(mag as int == fx_abs(pi));
        assert(fx_abs(pi) == fx_abs(a as int) * fx_abs(b as int));
        assert(q as int == (fx_abs(a as int) * fx_abs(b as int)) / (SCALE as int));
        assert(0 <= q as int);
        assert(qc as int == sat_clip(q as int)) by {
            vstd::arithmetic::div_mod::lemma_div_pos_is_pos(
                fx_abs(a as int) * fx_abs(b as int),
                SCALE as int,
            );
        }
        assert((a as int) * (b as int) < 0 ==> ((a as int) < 0) != ((b as int) < 0))
            by (nonlinear_arith);
        assert((a as int) * (b as int) > 0 ==> ((a as int) < 0) == ((b as int) < 0))
            by (nonlinear_arith);
        assert(pi == 0 ==> q as int == 0);
        assert(neg ==> fx_mul_sat(a as int, b as int) == -(qc as int));
        assert(!neg ==> fx_mul_sat(a as int, b as int) == qc as int);
    }
    if neg {
        -(qc as i64)
    } else {
        qc as i64
    }
}

/// Saturating fixed-point divide: `a * SCALE / b` truncated toward zero,
/// clipped into `[-FIX_SAT, FIX_SAT]`.
pub fn div_sat(a: i64, b: i64) -> (r: i64)
    requires
        b != 0,
    ensures
        r as int == fx_div_sat(a as int, b as int),
{
    proof {
        lemma_mul_abs_le(a as int, SCALE as int, 0x8000_0000_0000_0000, SCALE as int);
    }
    let p: i128 = (a as i128) * (SCALE as i128);
    let nega: bool = p < 0;
    let mag: u128 = if nega {
        (-p) as u128
    } else {
        p as u128
    };
    let mb: u128 = if b < 0 {
        (-(b as i128)) as u128
    } else {
        b as u128
    };
    let q: u128 = mag / mb;
    let qc: u128 = if q > FIX_SAT as u128 {
        FIX_SAT as u128
    } else {
        q
    };
    if nega != (b < 0) {
        -(qc as i64)
    } else {
        qc as i64
    }
}

/// Saturating sum of two scalars.
pub fn add_sat(a: i64, b: i64) -> (r: i64)
    ensures
        r as int == sat_add(a as int, b as int),
{
    let s: i128 = (a as i128) + (b as i128);
    if s > FIX_SAT as i128 {
        FIX_SAT
    } else if s < -(FIX_SAT as i128) {
        -FIX_SAT
    } else {
        s as i64
    }
}

/// Saturating difference of two scalars.
pub fn sub_sat(a: i64, b: i64) -> (r: i64)
    ensures
        r as int == sat_sub(a as int, b as int),
{
    let s: i128 = (a as i128) - (b as i128);
    if s > FIX_SAT as i128 {
        FIX_SAT
    } else if s < -(FIX_SAT as i128) {
        -FIX_SAT
    } else {
        s as i64
    }
}

/// Sum clipped into `[-FIX_BOUND, FIX_BOUND]`; used to accumulate raw
/// per-frame input without leaving the range later stages accept.
pub fn add_bounded(a: i64, b: i64) -> (r: i64)
    ensures
        r as int == bound_add(a as int, b as int),
{
    let s: i128 = (a as i128) + (b as i128);
    if s > FIX_BOUND as i128 {
        FIX_BOUND
    } else if s < -(FIX_BOUND as i128) {
        -FIX_BOUND
    } else {
        s as i64
    }
}

/// `r` is the integer square root of `n`, rounded down.
pub open spec fn is_sqrt_floor(n: int, r: int) -> bool {
    0 <= r && r * r <= n < (r + 1) * (r + 1)
}

/// The integer square root of `n`, rounded down.
pub open spec fn sqrt_floor(n: int) -> int
    recommends
        0 <= n,
{
    choose|r: int| is_sqrt_floor(n, r)
}

/// Fixed-point square root: the scalar `r` with `r * r <= v` and
/// `(r + 1) * (r + 1) > v` in fixed-point arithmetic.
pub open spec fn fx_sqrt(v: int) -> int
    recommends
        0 <= v,
{
    sqrt_floor(v * (SCALE as int))
}

/// Every non-negative integer has a rounded-down square root.
pub proof fn lemma_sqrt_floor_exists(n: int)
    requires
        0 <= n,
    ensures
        is_sqrt_floor(n, sqrt_floor(n)),
    decreases n,
{
    if n == 0 {
        assert(is_sqrt_floor(0, 0));
    } else {
        lemma_sqrt_floor_exists(n - 1);
        let r = sqrt_floor(n - 1);
        assert(is_sqrt_floor(n - 1, r));
        if (r + 1) * (r + 1) <= n {
            assert(n <= (r + 1) * (r + 1));
            assert((r + 1) * (r + 1) < (r + 2) * (r + 2)) by (nonlinear_arith)
                requires
                    0 <= r,
            ;
            assert(is_sqrt_floor(n, r + 1));
        } else {
            assert(is_sqrt_floor(n, r));
        }
    }
    assert(exists|r: int| is_sqrt_floor(n, r));
}

/// The rounded-down square root is unique.
pub proof fn lemma_sqrt_floor_unique(n: int, r1: int, r2: int)
    requires
        is_sqrt_floor(n, r1),
        is_sqrt_floor(n, r2),
    ensures
        r1 == r2,
{
    assert(r1 == r2) by (nonlinear_arith)
        requires
            0 <= r1 && r1 * r1 <= n < (r1 + 1) * (r1 + 1),
            0 <= r2 && r2 * r2 <= n < (r2 + 1) * (r2 + 1),
    ;
}

/// A witness pins `sqrt_floor` down.
pub proof fn lemma_sqrt_floor_is(n: int, r: int)
    requires
        0 <= n,
        is_sqrt_floor(n, r),
    ensures
        sqrt_floor(n) == r,
{
    lemma_sqrt_floor_exists(n);
    lemma_sqrt_floor_unique(n, sqrt_floor(n), r);
}

/// Fixed-point square root of a non-negative scalar, by binary search.
pub fn sqrt_scaled(v: i64) -> (r: i64)
    requires
        0 <= v <= FIX_SAT,
    ensures
        r as int == fx_sqrt(v as int),
        0 <= r <= 1_000_000_000_000,
{
    let x: u128 = (v as u128) * (SCALE as u128);
    let mut lo: u64 = 0;
    let mut hi: u64 = 1_099_511_627_776;
    proof {
        assert((hi as int) * (hi as int) == 0x100000000000000000000int);
        lemma_mul_le(v as int, SCALE as int, FIX_SAT as int, SCALE as int);
        assert(x as int <= 1_000_000_000_000_000_000_000_000int);
    }
    while lo + 1 < hi
        invariant
            lo < hi <= 1_099_511_627_776,
            (lo as int) * (lo as int) <= x as int,
            (x as int) < (hi as int) * (hi as int),
        decreases hi - lo,
    {
        let mid: u64 = lo + (hi - lo) / 2;
        proof {
            lemma_mul_le(mid as int, mid as int, 0x10000000000, 0x10000000000);
        }
        let sq: u128 = (mid as u128) * (mid as u128);
        if sq <= x {
            lo = mid;
        } else {
            hi = mid;
        }
    }
    proof {
        assert(hi == lo + 1);
        assert(is_sqrt_floor(x as int, lo as int));
        lemma_sqrt_floor_is(x as int, lo as int);
        assert(lo as int <= 1_000_000_000_000int) by (nonlinear_arith)
            requires
                0 <= lo as int,
            (lo as int) * (lo as int) <= 1_000_000_000_000_000_000_000_000int,
        ;
    }
    lo as i64
}

/// The power of `base` to a whole number of fixed-point units: `SCALE` for
/// zero, otherwise one more saturating multiplication by `base` each step.
pub open spec fn pow_int(base: int, n: nat) -> int
    decreases n,
{
    if n == 0 {
        SCALE as int
    } else {
        fx_mul_sat(pow_int(base, (n - 1) as nat), base)
    }
}

/// The power of a base to the binary fraction `rem / (2 * t0)`: walks the
/// fraction bits from the most significant, squaring down `cur` (the running
/// `base ^ (t / t0 / 2)`) and multiplying set bits into `acc`.
pub open spec fn pow_frac(acc: int, cur: int, rem: nat, t: nat) -> int
    decreases t,
{
    if t == 0 {
        acc
    } else {
        let c = fx_sqrt(cur);
        if rem >= t {
            pow_frac(fx_mul_sat(acc, c), c, (rem - t) as nat, t / 2)
        } else {
            pow_frac(acc, c, rem, t / 2)
        }
    }
}

/// How many binary fraction digits the fractional exponent keeps.
pub const FRAC_ONE: i64 = 1_048_576;

/// Half of `FRAC_ONE`: the place value of the first fraction digit.
pub const FRAC_TOP: i64 = 524_288;

/// `base` raised to the fixed-point exponent `exp`: the whole units of `exp`
/// by repeated multiplication, the fractional part by a twenty-digit binary
/// expansion evaluated with repeated square roots. Saturating throughout.
pub open spec fn fx_pow(base: int, exp: int) -> int
    recommends
        0 <= base,
        0 <= exp,
{
    let n = exp / (SCALE as int);
    let f = exp % (SCALE as int);
    let bits = (f * (FRAC_ONE as int)) / (SCALE as int);
    fx_mul_sat(pow_int(base, n as nat), pow_frac(SCALE as int, base, bits as nat, FRAC_TOP as nat))
}

/// The saturating product of non-negative scalars is non-negative.
pub proof fn lemma_fx_mul_sat_nonneg(a: int, b: int)
    requires
        0 <= a,
        0 <= b,
    ensures
        0 <= fx_mul_sat(a, b) <= FIX_SAT as int,
        fx_mul_sat(a, b) == if fx_mul(a, b) > FIX_SAT as int {
            FIX_SAT as int
        } else {
            fx_mul(a, b)
        },
{
    lemma_mul_le(a, b, a, b);
    vstd::arithmetic::div_mod::lemma_div_pos_is_pos(a * b, SCALE as int);
}

/// Multiplying a scalar at most one by a scalar below one cannot reach one:
/// `fx_mul(a, b) <= bound` whenever `a <= SCALE` and `b <= bound < SCALE`.
proof fn lemma_fx_mul_below(a: int, b: int, bound: int)
    requires
        0 <= a <= SCALE as int,
        0 <= b,
        b <= bound,
        0 <= bound < SCALE as int,
    ensures
        0 <= fx_mul(a, b) <= bound,
        fx_mul_sat(a, b) == fx_mul(a, b),
{
    lemma_mul_le(a, b, SCALE as int, bound);
    assert(a * b <= (SCALE as int) * bound);
    vstd::arithmetic::div_mod::lemma_div_is_ordered(a * b, (SCALE as int) * bound, SCALE as int);
    vstd::arithmetic::div_mod::lemma_div_multiples_vanish(bound, SCALE as int);
    vstd::arithmetic::div_mod::lemma_div_pos_is_pos(a * b, SCALE as int);
}

/// A whole-unit power of a base below one stays at most one, and below the
/// base itself once the exponent is positive.
pub proof fn lemma_pow_int_le(base: int, n: nat)
    requires
        0 <= base < SCALE as int,
    ensures
        0 <= pow_int(base, n) <= SCALE as int,
        n >= 1 ==> pow_int(base, n) <= base,
    decreases n,
{
    if n == 0 {
    } else {
        lemma_pow_int_le(base, (n - 1) as nat);
        let p = pow_int(base, (n - 1) as nat);
        lemma_fx_mul_below(p, base, base);
    }
}

/// The fixed-point square root of a scalar below one stays below one.
pub proof fn lemma_fx_sqrt_below_one(v: int)
    requires
        0 <= v < SCALE as int,
    ensures
        0 <= fx_sqrt(v) < SCALE as int,
{
    lemma_mul_le(v, SCALE as int, SCALE as int, SCALE as int);
    lemma_sqrt_floor_exists(v * (SCALE as int));
    let r = fx_sqrt(v);
    assert(r * r <= v * (SCALE as int));
    assert(v * (SCALE as int) < (SCALE as int) * (SCALE as int)) by (nonlinear_arith)
        requires
            0 <= v < SCALE as int,
    ;
    assert(r < SCALE as int) by (nonlinear_arith)
        requires
            0 <= r,
            r * r < (SCALE as int) * (SCALE as int),
    ;
}

/// The fraction part of a power never grows the accumulator when the running
/// base sits below one.
pub proof fn lemma_pow_frac_le(acc: int, cur: int, rem: nat, t: nat)
    requires
        0 <= acc <= SCALE as int,
        0 <= cur < SCALE as int,
    ensures
        0 <= pow_frac(acc, cur, rem, t) <= acc,
    decreases t,
{
    if t == 0 {
    } else {
        let c = fx_sqrt(cur);
        lemma_fx_sqrt_below_one(cur);
        if rem >= t {
            lemma_fx_mul_below(acc, c, c);
            let acc2 = fx_mul_sat(acc, c);
            assert(acc2 <= acc) by {
                lemma_mul_le(acc, c, acc, SCALE as int);
                assert(acc * c <= acc * (SCALE as int));
                vstd::arithmetic::div_mod::lemma_div_is_ordered(
                    acc * c,
                    acc * (SCALE as int),
                    SCALE as int,
                );
                vstd::arithmetic::div_mod::lemma_div_multiples_vanish(acc, SCALE as int);
                assert(acc * (SCALE as int) == (SCALE as int) * acc) by (nonlinear_arith);
            }
            lemma_pow_frac_le(acc2, c, (rem - t) as nat, t / 2);
        } else {
            lemma_pow_frac_le(acc, c, rem, t / 2);
        }
    }
}

/// Once any fraction digit is set, the fraction part of a power of a base
/// below one lands strictly below one.
pub proof fn lemma_pow_frac_strict(acc: int, cur: int, rem: nat, k: nat)
    requires
        0 <= acc <= SCALE as int,
        0 <= cur < SCALE as int,
        1 <= rem < 2 * vstd::arithmetic::power2::pow2(k),
    ensures
        0 <= pow_frac(acc, cur, rem, vstd::arithmetic::power2::pow2(k)) < SCALE as int,
    decreases k,
{
    let t = vstd::arithmetic::power2::pow2(k);
    vstd::arithmetic::power2::lemma_pow2_pos(k);
    vstd::arithmetic::power2::lemma2_to64();
    let c = fx_sqrt(cur);
    lemma_fx_sqrt_below_one(cur);
    if k == 0 {
        assert(t == 1);
        assert(rem == 1);
        let acc2 = fx_mul_sat(acc, c);
        lemma_fx_mul_below(acc, c, (SCALE as int) - 1);
        lemma_pow_frac_le(acc2, c, (rem - t) as nat, t / 2);
    } else {
        vstd::arithmetic::power2::lemma_pow2_unfold(k);
        let t2 = vstd::arithmetic::power2::pow2((k - 1) as nat);
        assert(t == 2 * t2);
        assert(t / 2 == t2);
        if rem >= t {
            let acc2 = fx_mul_sat(acc, c);
            lemma_fx_mul_below(acc, c, (SCALE as int) - 1);
            lemma_pow_frac_le(acc2, c, (rem - t) as nat, t / 2);
        } else {
            lemma_pow_frac_strict(acc, c, rem, (k - 1) as nat);
        }
    }
}

/// A base below one raised to any positive fixed-point exponent lands
/// strictly below one.
pub proof fn lemma_fx_pow_below_one(base: int, exp: int)
    requires
        0 <= base < SCALE as int,
        1 <= exp,
    ensures
        0 <= fx_pow(base, exp) < SCALE as int,
{
    let s = SCALE as int;
    let n = exp / s;
    let f = exp % s;
    vstd::arithmetic::div_mod::lemma_fundamental_div_mod(exp, s);
    vstd::arithmetic::div_mod::lemma_mod_bound(exp, s);
    vstd::arithmetic::div_mod::lemma_div_pos_is_pos(exp, s);
    let bits = (f * (FRAC_ONE as int)) / s;
    let ip = pow_int(base, n as nat);
    let fp = pow_frac(s, base, bits as nat, FRAC_TOP as nat);
    lemma_pow_int_le(base, n as nat);
    lemma_pow_frac_le(s, base, bits as nat, FRAC_TOP as nat);
    vstd::arithmetic::div_mod::lemma_div_pos_is_pos(f * (FRAC_ONE as int), s);
    assert(0 <= f * (FRAC_ONE as int)) by (nonlinear_arith)
        requires
            0 <= f,
    ;
    if n >= 1 {
        assert(ip <= base);
        lemma_fx_mul_below(fp, ip, base);
        assert(fx_mul(fp, ip) == fx_mul(ip, fp)) by {
            assert(fx_abs(fp) * fx_abs(ip) == fx_abs(ip) * fx_abs(fp)) by (nonlinear_arith);
        }
    } else {
        assert(n == 0);
        assert(exp == f);
        assert(f * (FRAC_ONE as int) >= 1 * (FRAC_ONE as int)) by (nonlinear_arith)
            requires
                1 <= f,
        ;
        vstd::arithmetic::div_mod::lemma_div_is_ordered(FRAC_ONE as int, f * (FRAC_ONE as int), s);
        assert((FRAC_ONE as int) / s == 1);
        assert(bits >= 1);
        lemma_bits_below_top(f);
        assert(bits < 2 * (FRAC_TOP as int));
        assert(vstd::arithmetic::power2::pow2(19) == 524288) by {
            vstd::arithmetic::power2::lemma2_to64();
        }
        lemma_pow_frac_strict(s, base, bits as nat, 19);
        assert(fp < s);
        assert(ip == s);
        assert(fx_mul(ip, fp) == fp) by {
            assert(fx_abs(ip) * fx_abs(fp) == s * fp) by (nonlinear_arith)
                requires
                    ip == s,
                    0 <= fp,
                    fx_abs(ip) == ip,
                    fx_abs(fp) == fp,
            ;
            vstd::arithmetic::div_mod::lemma_div_multiples_vanish(fp, s);
        }
    }
}

/// The kept binary fraction of an exponent below one unit stays below twice
/// the top digit's place value.
proof fn lemma_bits_below_top(f: int)
    requires
        0 <= f < SCALE as int,
    ensures
        (f * (FRAC_ONE as int)) / (SCALE as int) < 2 * (FRAC_TOP as int),
{
    let s = SCALE as int;
    assert(f * (FRAC_ONE as int) <= (s - 1) * (FRAC_ONE as int)) by (nonlinear_arith)
        requires
            f <= s - 1,
    ;
    assert(0 <= f * (FRAC_ONE as int)) by (nonlinear_arith)
        requires
            0 <= f,
    ;
    vstd::arithmetic::div_mod::lemma_div_is_ordered(f * (FRAC_ONE as int), (s - 1) * (FRAC_ONE as int), s);
    assert(((s - 1) * (FRAC_ONE as int)) / s < 2 * (FRAC_TOP as int));
}

/// `base` raised to the fixed-point exponent `exp`; see `fx_pow`.
pub fn pow_fix(base: i64, exp: i64) -> (r: i64)
    requires
        0 <= base <= FIX_SAT,
        0 <= exp <= FIX_BOUND,
    ensures
        r as int == fx_pow(base as int, exp as int),
        0 <= r <= FIX_SAT,
{
    let e: u64 = exp as u64;
    let n: u64 = e / 1_000_000;
    let f: u64 = e % 1_000_000;
    let mut ip: i64 = SCALE;
    let mut i: u64 = 0;
    while i < n
        invariant
            i <= n,
            0 <= base <= FIX_SAT,
            0 <= ip <= FIX_SAT,
            ip as int == pow_int(base as int, i as nat),
        decreases n - i,
    {
        proof {
            lemma_fx_mul_sat_nonneg(ip as int, base as int);
        }
        ip = mul_sat(ip, base);
        i = i + 1;
    }
    let bits: u64 = (f * 1_048_576) / 1_000_000;
    let mut fa: i64 = SCALE;
    let mut cur: i64 = base;
    let mut rem: u64 = bits;
    let mut t: u64 = 524_288;
    while t > 0
        invariant
            0 <= base <= FIX_SAT,
            0 <= fa <= FIX_SAT,
            0 <= cur <= FIX_SAT,
            pow_frac(fa as int, cur as int, rem as nat, t as nat) == pow_frac(
                SCALE as int,
                base as int,
                bits as nat,
                FRAC_TOP as nat,
            ),
        decreases t,
    {
        let c = sqrt_scaled(cur);
        if rem >= t {
            proof {
                lemma_fx_mul_sat_nonneg(fa as int, c as int);
            }
            fa = mul_sat(fa, c);
            rem = rem - t;
        }
        cur = c;
        t = t / 2;
    }
    proof {
        lemma_fx_mul_sat_nonneg(ip as int, fa as int);
        assert(n as int == (exp as int) / (SCALE as int));
        assert(f as int == (exp as int) % (SCALE as int));
        assert(bits as int == ((f as int) * (FRAC_ONE as int)) / (SCALE as int));
    }
    mul_sat(ip, fa)
}

/// Clamp a scalar into an inclusive range.
pub fn clamp_fix(x: i64, lo: i64, hi: i64) -> (r: i64)
    requires
        lo <= hi,
    ensures
        r as int == fx_clamp(x as int, lo as int, hi as int),
        lo <= r <= hi,
{
    if x < lo {
        lo
    } else if x > hi {
        hi
    } else {
        x
    }
}

} // verus!
