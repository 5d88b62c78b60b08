//! Fixed-point scalars.
//!
//! Every length, speed, acceleration and direction component is a signed
//! count of steps, `UNIT` steps to the whole. Angles are counted in
//! thousandths of a radian. Working in whole steps keeps every tick exactly
//! reproducible and lets the movement rules be stated over the integers.

use vstd::prelude::*;

verus! {

/// Steps in one whole unit.
pub const UNIT: i64 = 1000;

/// Largest magnitude that a stored component may have.
pub const LIMIT: i64 = 500_000_000;

/// Largest magnitude that a sum of three stored components may have.
pub const REACH: i64 = 1_500_000_000;

/// `-LIMIT <= c <= LIMIT`.
pub open spec fn in_limit(c: int) -> bool {
    -(LIMIT as int) <= c <= LIMIT as int
}

/// `-REACH <= c <= REACH`.
pub open spec fn in_reach(c: int) -> bool {
    -(REACH as int) <= c <= REACH as int
}

/// Magnitude of an integer.
pub open spec fn magnitude(c: int) -> int {
    if c >= 0 { c } else { -c }
}

/// The largest `r` with `r * r <= n`.
pub open spec fn floor_sqrt(n: nat) -> nat
    decreases n,
{
    if n == 0 {
        0
    } else {
        let r = floor_sqrt((n - 1) as nat);
        if (r + 1) * (r + 1) <= n { r + 1 } else { r }
    }
}

/// The smallest `r` with `n <= r * r`.
pub open spec fn ceil_sqrt(n: nat) -> nat {
    let r = floor_sqrt(n);
    if r * r == n { r } else { r + 1 }
}

/// `c * num / den` rounded toward zero, for `num >= 0` and `den > 0`.
pub open spec fn scale_toward_zero(c: int, num: int, den: int) -> int {
    if c >= 0 { (c * num) / den } else { -(((-c) * num) / den) }
}

/// The product of two fixed-point numbers: `a * b / UNIT`, rounded toward
/// zero.
pub open spec fn mul_units(a: int, b: int) -> int {
    if (a >= 0) == (b >= 0) {
        (magnitude(a) * magnitude(b)) / (UNIT as int)
    } else {
        -((magnitude(a) * magnitude(b)) / (UNIT as int))
    }
}

/// `v` held to the closed range from `lo` to `hi`.
pub open spec fn clamped(v: int, lo: int, hi: int) -> int {
    if v < lo { lo } else if v > hi { hi } else { v }
}

/// `floor_sqrt(n)` squared is at most `n`, and the next square is beyond it.
pub proof fn lemma_floor_sqrt_bounds(n: nat)
    ensures
        floor_sqrt(n) * floor_sqrt(n) <= n,
        n < (floor_sqrt(n) + 1) * (floor_sqrt(n) + 1),
    decreases n,
{
    let s = floor_sqrt(n);
    if n > 0 {
        let r = floor_sqrt((n - 1) as nat);
        lemma_floor_sqrt_bounds((n - 1) as nat);
        if (r + 1) * (r + 1) <= n {
            assert(s == r + 1);
            assert((s + 1) * (s + 1) > (r + 1) * (r + 1)) by (nonlinear_arith)
                requires
                    s == r + 1,
            ;
        } else {
            assert(s == r);
        }
    } else {
        assert(s == 0);
        assert(s * s == 0 && (s + 1) * (s + 1) == 1) by (nonlinear_arith)
            requires
                s == 0,
        ;
    }
}

/// Squaring keeps the order of the naturals.
pub proof fn lemma_square_monotone(a: int, b: int)
    requires
        0 <= a <= b,
    ensures
        a * a <= b * b,
{
    assert(a * a <= b * b) by (nonlinear_arith)
        requires
            0 <= a <= b,
    ;
}

/// Only one natural lies between the square roots: a root found by any
/// means is `floor_sqrt`.
pub proof fn lemma_floor_sqrt_unique(n: nat, r: nat)
    requires
        r * r <= n,
        n < (r + 1) * (r + 1),
    ensures
        r == floor_sqrt(n),
{
    let s = floor_sqrt(n);
    lemma_floor_sqrt_bounds(n);
    if r < s {
        lemma_square_monotone((r + 1) as int, s as int);
    } else if s < r {
        lemma_square_monotone((s + 1) as int, r as int);
    }
}

/// A larger number has no smaller root.
pub proof fn lemma_floor_sqrt_monotone(a: nat, b: nat)
    requires
        a <= b,
    ensures
        floor_sqrt(a) <= floor_sqrt(b),
{
    lemma_floor_sqrt_bounds(a);
    lemma_floor_sqrt_bounds(b);
    if floor_sqrt(a) > floor_sqrt(b) {
        lemma_square_monotone((floor_sqrt(b) + 1) as int, floor_sqrt(a) as int);
    }
}

/// `ceil_sqrt(n)` squared reaches `n`, and it is at most one above
/// `floor_sqrt(n)`.
pub proof fn lemma_ceil_sqrt_bounds(n: nat)
    ensures
        n <= ceil_sqrt(n) * ceil_sqrt(n),
        floor_sqrt(n) <= ceil_sqrt(n) <= floor_sqrt(n) + 1,
        n > 0 ==> ceil_sqrt(n) > 0,
{
    lemma_floor_sqrt_bounds(n);
}

/// `ceil_sqrt(n)` is the least root that reaches `n`.
pub proof fn lemma_ceil_sqrt_least(n: nat, r: int)
    requires
        0 <= r,
        n <= r * r,
    ensures
        ceil_sqrt(n) <= r,
{
    let f = floor_sqrt(n) as int;
    lemma_floor_sqrt_bounds(n);
    if f * f == n {
        if f > r {
            lemma_square_monotone(r + 1, f);
            assert((r + 1) * (r + 1) > r * r) by (nonlinear_arith)
                requires
                    0 <= r,
            ;
        }
    } else {
        if r <= f {
            lemma_square_monotone(r, f);
        }
    }
}

/// Scaling by a ratio `num / den` between 0 and 1 keeps the sign and does
/// not lengthen the component; scaling by any ratio rounds toward zero.
pub proof fn lemma_scale_toward_zero(c: int, num: int, den: int)
    requires
        0 <= num,
        0 < den,
    ensures
        c >= 0 ==> 0 <= scale_toward_zero(c, num, den),
        c <= 0 ==> scale_toward_zero(c, num, den) <= 0,
        magnitude(scale_toward_zero(c, num, den)) == (magnitude(c) * num) / den,
        magnitude(scale_toward_zero(c, num, den)) * den <= magnitude(c) * num,
        num <= den ==> magnitude(scale_toward_zero(c, num, den)) <= magnitude(c),
        num < den && c != 0 ==> magnitude(scale_toward_zero(c, num, den)) < magnitude(c),
        num == den ==> scale_toward_zero(c, num, den) == c,
        num == 0 ==> scale_toward_zero(c, num, den) == 0,
{
    let m = magnitude(c);
    let q = (m * num) / den;
    assert(0 <= m * num) by (nonlinear_arith)
        requires
            0 <= m,
            0 <= num,
    ;
    vstd::arithmetic::div_mod::lemma_fundamental_div_mod(m * num, den);
    vstd::arithmetic::div_mod::lemma_mod_bound(m * num, den);
    assert(den * q == q * den) by (nonlinear_arith);
    assert(0 <= q) by (nonlinear_arith)
        requires
            0 <= m * num,
            0 < den,
            q * den + (m * num) % den == m * num,
            (m * num) % den < den,
    ;
    if num <= den {
        assert(q <= m) by (nonlinear_arith)
            requires
                q * den <= m * num,
                0 <= num <= den,
                0 < den,
                0 <= m,
                0 <= q,
        ;
    }
    if num < den && c != 0 {
        assert(q < m) by (nonlinear_arith)
            requires
                q * den <= m * num,
                0 <= num < den,
                0 < m,
                0 <= q,
        ;
    }
    if num == den {
        assert(q == m) by (nonlinear_arith)
            requires
                q * den + (m * num) % den == m * num,
                0 <= (m * num) % den < den,
                num == den,
                0 < den,
        ;
    }
    if num == 0 || c == 0 {
        assert(m * num == 0 && q == 0) by (nonlinear_arith)
            requires
                num == 0 || m == 0,
                q * den + (m * num) % den == m * num,
                0 <= (m * num) % den < den,
                0 <= q,
        ;
    }
}

/// Whether `c` can be stored.
pub fn fits_limit(c: i64) -> (r: bool)
    ensures
        r == in_limit(c as int),
{
    -LIMIT <= c && c <= LIMIT
}

/// The largest `r` with `r * r <= n`, by bisection.
pub fn isqrt(n: u64) -> (r: u64)
    ensures
        r == floor_sqrt(n as nat),
        r * r <= n,
        r <= 4294967295,
{
    let mut lo: u64 = 0;
    let mut hi: u64 = 4294967296;
    assert(4294967296 * 4294967296 > n) by (nonlinear_arith)
        requires
            n <= 0xffff_ffff_ffff_ffff,
    ;
    while hi - lo > 1
        invariant
            lo < hi <= 4294967296,
            lo * lo <= n,
            n < hi * hi,
        decreases hi - lo,
    {
        let mid: u64 = lo + (hi - lo) / 2;
        assert(mid * mid <= 4294967295 * 4294967295) by (nonlinear_arith)
            requires
                0 <= mid <= 4294967295,
        ;
        if mid * mid <= n {
            lo = mid;
        } else {
            hi = mid;
        }
    }
    proof {
        lemma_floor_sqrt_unique(n as nat, lo as nat);
    }
    lo
}

/// The largest `r` with `r * r <= n`, for numbers of up to 96 bits.
pub fn isqrt_wide(n: u128) -> (r: u128)
    requires
        n < 0x1_0000_0000_0000_0000_0000_0000,
    ensures
        r == floor_sqrt(n as nat),
        r * r <= n,
        r < 0x1_0000_0000_0000,
{
    let mut lo: u128 = 0;
    let mut hi: u128 = 0x1_0000_0000_0000;
    assert(0x1_0000_0000_0000 * 0x1_0000_0000_0000 == 0x1_0000_0000_0000_0000_0000_0000)
        by (nonlinear_arith);
    while hi - lo > 1
        invariant
            lo < hi <= 0x1_0000_0000_0000,
            lo * lo <= n,
            n < hi * hi,
        decreases hi - lo,
    {
        let mid: u128 = lo + (hi - lo) / 2;
        assert(mid * mid <= 0x1_0000_0000_0000 * 0x1_0000_0000_0000) by (nonlinear_arith)
            requires
                0 <= mid <= 0x1_0000_0000_0000,
        ;
        if mid * mid <= n {
            lo = mid;
        } else {
            hi = mid;
        }
    }
    proof {
        lemma_floor_sqrt_unique(n as nat, lo as nat);
    }
    lo
}

/// The smallest `r` with `n <= r * r`, for numbers of up to 96 bits.
pub fn isqrt_wide_ceil(n: u128) -> (r: u128)
    requires
        n < 0x1_0000_0000_0000_0000_0000_0000,
    ensures
        r == ceil_sqrt(n as nat),
        r <= 0x1_0000_0000_0000,
{
    let r = isqrt_wide(n);
    assert(r * r <= 0x1_0000_0000_0000 * 0x1_0000_0000_0000) by (nonlinear_arith)
        requires
            0 <= r <= 0x1_0000_0000_0000,
    ;
    if r * r == n { r } else { r + 1 }
}

/// The smallest `r` with `n <= r * r`.
pub fn isqrt_ceil(n: u64) -> (r: u64)
    ensures
        r == ceil_sqrt(n as nat),
        r <= 4294967296,
{
    let r = isqrt(n);
    if r * r == n { r } else { r + 1 }
}

/// `c * num / den`, rounded toward zero.
pub fn scale(c: i64, num: u64, den: u64) -> (r: i64)
    requires
        in_reach(c as int),
        0 < den,
        num <= den || in_reach(scale_toward_zero(c as int, num as int, den as int)),
    ensures
        r == scale_toward_zero(c as int, num as int, den as int),
        in_reach(r as int),
{
    proof {
        lemma_scale_toward_zero(c as int, num as int, den as int);
    }
    let m: u128 = if c >= 0 { c as u128 } else { (-c) as u128 };
    assert(m * num <= 1_500_000_000 * 0xffff_ffff_ffff_ffff) by (nonlinear_arith)
        requires
            0 <= m <= 1_500_000_000,
            0 <= num <= 0xffff_ffff_ffff_ffff,
    ;
    let q: u128 = (m * (num as u128)) / (den as u128);
    if c >= 0 { q as i64 } else { -(q as i64) }
}

/// A product with a factor of at most one unit is no larger than the other
/// factor, and a product with zero is zero.
pub proof fn lemma_mul_units(a: int, b: int)
    ensures
        magnitude(b) <= UNIT ==> magnitude(mul_units(a, b)) <= magnitude(a),
        magnitude(mul_units(a, b)) == (magnitude(a) * magnitude(b)) / (UNIT as int),
        a == 0 || b == 0 ==> mul_units(a, b) == 0,
        b == UNIT ==> mul_units(a, b) == a,
{
    lemma_scale_toward_zero(magnitude(a), magnitude(b), UNIT as int);
    lemma_scale_toward_zero(magnitude(b), magnitude(a), UNIT as int);
    assert(magnitude(a) * magnitude(b) == magnitude(b) * magnitude(a)) by (nonlinear_arith);
}

/// The product of two fixed-point numbers, rounded toward zero.
pub fn mul_fixed(a: i64, b: i64) -> (r: i64)
    requires
        in_reach(a as int),
        in_reach(b as int),
    ensures
        r == mul_units(a as int, b as int),
        magnitude(b as int) <= UNIT ==> magnitude(r as int) <= magnitude(a as int),
{
    proof {
        lemma_mul_units(a as int, b as int);
    }
    let ma: u64 = if a >= 0 { a as u64 } else { (-a) as u64 };
    let mb: u64 = if b >= 0 { b as u64 } else { (-b) as u64 };
    assert(ma * mb <= 1_500_000_000 * 1_500_000_000) by (nonlinear_arith)
        requires
            0 <= ma <= 1_500_000_000,
            0 <= mb <= 1_500_000_000,
    ;
    let q: u64 = (ma * mb) / (UNIT as u64);
    if (a >= 0) == (b >= 0) { q as i64 } else { -(q as i64) }
}

/// `v` held to the closed range from `lo` to `hi`.
pub fn clamp(v: i64, lo: i64, hi: i64) -> (r: i64)
    ensures
        r == clamped(v as int, lo as int, hi as int),
{
    if v < lo { lo } else if v > hi { hi } else { v }
}

} // verus!
