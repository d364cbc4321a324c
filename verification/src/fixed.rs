//! Fixed-point scalars and the integer helpers the rest of the crate builds on.
//!
//! Every quantity the renderer computes with (world coordinates, screen
//! coordinates, depths, texture coordinates, light intensities) is a signed
//! fixed-point number with sixteen fractional bits, stored in an `i64`.
//! Sums and differences keep that scale; a product of two such numbers carries
//! thirty-two fractional bits until it is divided back down.
use vstd::prelude::*;
use vstd::arithmetic::div_mod::lemma_fundamental_div_mod_converse;

verus! {

/// The fixed-point representation of `1.0`.
pub const ONE: i64 = 65536;

/// `1.0` at the scale of a product of two fixed-point numbers: `ONE * ONE`.
pub const ONE_SQUARED: i64 = 4294967296;

/// The fixed-point representation of `0.5`.
pub const HALF: i64 = 32768;

/// Largest magnitude of a coordinate the geometry routines accept (`8192.0`).
/// With coordinates inside this bound every cross product of coordinate
/// differences fits an `i64`.
pub const COORD_LIMIT: i64 = 536870912;

/// Largest raster width or height, in pixels. Every pixel centre of such a
/// raster lies inside `COORD_LIMIT`.
pub const MAX_DIM: usize = 8192;

/// Whether a scalar lies inside `COORD_LIMIT`.
pub open spec fn coord_in_range(c: int) -> bool {
    -COORD_LIMIT <= c <= COORD_LIMIT
}

/// Quotient of `a` by a positive `b`, rounded toward zero.
pub open spec fn trunc_div(a: int, b: int) -> int {
    if a >= 0 {
        a / b
    } else {
        -((-a) / b)
    }
}

/// `v` limited to the closed interval `[lo, hi]`.
pub open spec fn clamp(v: int, lo: int, hi: int) -> int {
    if v < lo {
        lo
    } else if v > hi {
        hi
    } else {
        v
    }
}

/// Whether `r` is the largest natural number whose square does not exceed `n`.
pub open spec fn is_sqrt_floor(n: nat, r: nat) -> bool {
    r * r <= n < (r + 1) * (r + 1)
}

/// The integer square root: the largest `r` with `r * r <= n`.
pub open spec fn sqrt_floor(n: nat) -> nat {
    choose|r: nat| is_sqrt_floor(n, r)
}

/// The magnitude of a component of a unit vector: `|c| * ONE / sqrt(n)`
/// rounded down, for a component `c` of a vector whose squared length is
/// `n`. The square root is the true one: nothing is rounded before the end.
pub open spec fn unit_magnitude(c: int, n: int) -> nat {
    sqrt_floor(((c * c * ONE_SQUARED) / n) as nat)
}

/// A component of a unit vector: `c * ONE / sqrt(n)` rounded toward zero.
pub open spec fn unit_component(c: int, n: int) -> int {
    if c >= 0 {
        unit_magnitude(c, n) as int
    } else {
        -(unit_magnitude(c, n) as int)
    }
}

/// Whether `r` is `c * ONE / sqrt(n)` rounded toward zero, for the true
/// square root: `r` has the sign of `c`, lies within `ONE`, and its
/// magnitude `m` satisfies `m <= |c| * ONE / sqrt(n) < m + 1`. The last is
/// written with both sides squared and multiplied by `n`, to stay in the
/// integers.
pub open spec fn is_unit_component(c: int, n: int, r: int) -> bool {
    let m = if r >= 0 { r } else { -r };
    &&& -ONE <= r <= ONE
    &&& c >= 0 ==> r >= 0
    &&& c <= 0 ==> r <= 0
    &&& m * m * n <= c * c * ONE_SQUARED
    &&& c * c * ONE_SQUARED < (m + 1) * (m + 1) * n
}

/// A number whose square is below one is zero.
pub proof fn lemma_zero_square(c: int)
    ensures
        c * c < 1 ==> c == 0,
{
    assert(c * c < 1 ==> c == 0) by (nonlinear_arith);
}

/// Squaring is strictly monotone on the naturals.
pub proof fn lemma_square_monotone(a: nat, b: nat)
    requires
        a < b,
    ensures
        (a + 1) * (a + 1) <= b * b,
{
    assert((a + 1) * (a + 1) <= b * b) by (nonlinear_arith)
        requires
            a + 1 <= b,
    ;
}

/// Any `r` squeezed as `r * r <= n < (r + 1) * (r + 1)` is the integer square
/// root of `n`.
pub proof fn lemma_sqrt_floor_unique(n: nat, r: nat)
    requires
        is_sqrt_floor(n, r),
    ensures
        sqrt_floor(n) == r,
{
    let s = sqrt_floor(n);
    assert(is_sqrt_floor(n, s));
    if s < r {
        lemma_square_monotone(s, r);
    } else if r < s {
        lemma_square_monotone(r, s);
    }
}

/// Every natural number has an integer square root.
pub proof fn lemma_sqrt_floor_bounds(n: nat)
    ensures
        is_sqrt_floor(n, sqrt_floor(n)),
    decreases n,
{
    if n == 0 {
        assert(0nat * 0nat == 0 && (0nat + 1) * (0nat + 1) == 1) by (nonlinear_arith);
        assert(is_sqrt_floor(n, 0));
    } else {
        let m = (n - 1) as nat;
        lemma_sqrt_floor_bounds(m);
        let r = sqrt_floor(m);
        if n < (r + 1) * (r + 1) {
            assert(is_sqrt_floor(n, r));
        } else {
            let t = r + 1;
            assert(n == t * t);
            assert(t * t < (t + 1) * (t + 1)) by (nonlinear_arith);
            assert(is_sqrt_floor(n, t));
        }
    }
}

/// A difference of two products of coordinate differences fits 64 bits with
/// room to spare.
pub proof fn lemma_edge_products(a: int, b: int, c: int, d: int)
    requires
        -2 * COORD_LIMIT <= a <= 2 * COORD_LIMIT,
        -2 * COORD_LIMIT <= b <= 2 * COORD_LIMIT,
        -2 * COORD_LIMIT <= c <= 2 * COORD_LIMIT,
        -2 * COORD_LIMIT <= d <= 2 * COORD_LIMIT,
    ensures
        -0x2000_0000_0000_0000 <= a * b - c * d <= 0x2000_0000_0000_0000,
        -0x1000_0000_0000_0000 <= a * b <= 0x1000_0000_0000_0000,
        -0x1000_0000_0000_0000 <= c * d <= 0x1000_0000_0000_0000,
{
    assert(-0x1000_0000_0000_0000 <= a * b <= 0x1000_0000_0000_0000) by (nonlinear_arith)
        requires
            -0x4000_0000 <= a <= 0x4000_0000,
            -0x4000_0000 <= b <= 0x4000_0000,
    ;
    assert(-0x1000_0000_0000_0000 <= c * d <= 0x1000_0000_0000_0000) by (nonlinear_arith)
        requires
            -0x4000_0000 <= c <= 0x4000_0000,
            -0x4000_0000 <= d <= 0x4000_0000,
    ;
}

/// The floor of `a / b` for a positive divisor.
pub fn div_floor(a: i128, b: i128) -> (q: i128)
    requires
        b > 0,
    ensures
        q == a / b,
{
    let q0: i128 = a / b;
    let r0: i128 = a % b;
    proof {
        if a < 0 {
            lemma_floor_of_negative(-(a as int), b as int);
        }
    }
    if r0 < 0 {
        q0 - 1
    } else {
        q0
    }
}

/// Floor division of a negative numerator `-m`, from the quotient and the
/// remainder of `m`.
proof fn lemma_floor_of_negative(m: int, b: int)
    requires
        m > 0,
        b > 0,
    ensures
        0 <= m / b <= m,
        m % b == 0 ==> (-m) / b == -(m / b),
        m % b > 0 ==> (-m) / b == -(m / b) - 1 && m / b < m,
{
    let k = m / b;
    let s = m % b;
    vstd::arithmetic::div_mod::lemma_fundamental_div_mod(m, b);
    vstd::arithmetic::div_mod::lemma_div_pos_is_pos(m, b);
    vstd::arithmetic::div_mod::lemma_div_nonincreasing(m, b);
    assert(0 <= s < b) by {
        vstd::arithmetic::div_mod::lemma_mod_pos_bound(m, b);
    }
    if s == 0 {
        assert((-k) * b + 0 == -m) by (nonlinear_arith)
            requires
                m == b * k + s,
                s == 0,
        ;
        lemma_fundamental_div_mod_converse(-m, b, -k, 0);
    } else {
        assert((-k - 1) * b + (b - s) == -m) by (nonlinear_arith)
            requires
                m == b * k + s,
        ;
        lemma_fundamental_div_mod_converse(-m, b, -k - 1, b - s);
        vstd::arithmetic::div_mod::lemma_div_is_strictly_smaller(m, b);
    }
}

/// The exact product of two 64-bit factors. It uses at most 127 bits, so
/// that two such products can be added or subtracted.
pub fn mul_wide(a: i64, b: i64) -> (p: i128)
    ensures
        p == a * b,
        -0x4000_0000_0000_0000_0000_0000_0000_0000 <= p
            <= 0x4000_0000_0000_0000_0000_0000_0000_0000,
{
    assert(-0x4000_0000_0000_0000_0000_0000_0000_0000 <= a * b
        <= 0x4000_0000_0000_0000_0000_0000_0000_0000) by (nonlinear_arith)
        requires
            -0x8000_0000_0000_0000 <= a <= 0x7fff_ffff_ffff_ffff,
            -0x8000_0000_0000_0000 <= b <= 0x7fff_ffff_ffff_ffff,
    ;
    (a as i128) * (b as i128)
}

/// `unit_magnitude(c, n)` is `|c| * ONE / sqrt(n)` rounded down: it is the
/// one number `m` with `m <= |c| * ONE / sqrt(n) < m + 1`, here written with
/// both sides squared and multiplied by `n`. It never exceeds `ONE`.
pub proof fn lemma_unit_magnitude(c: int, n: int)
    requires
        n > 0,
        c * c <= n,
    ensures
        unit_magnitude(c, n) <= ONE,
        unit_magnitude(c, n) * unit_magnitude(c, n) * n <= c * c * ONE_SQUARED,
        c * c * ONE_SQUARED < (unit_magnitude(c, n) + 1) * (unit_magnitude(c, n) + 1) * n,
        c == 0 ==> unit_magnitude(c, n) == 0,
{
    let scaled = c * c * ONE_SQUARED;
    assert(c * c >= 0) by (nonlinear_arith);
    assert(0 <= scaled <= n * ONE_SQUARED) by (nonlinear_arith)
        requires
            0 <= c * c <= n,
            scaled == c * c * ONE_SQUARED,
            ONE_SQUARED == 4294967296,
    ;
    let q = scaled / n;
    let r = scaled % n;
    vstd::arithmetic::div_mod::lemma_fundamental_div_mod(scaled, n);
    vstd::arithmetic::div_mod::lemma_mod_pos_bound(scaled, n);
    vstd::arithmetic::div_mod::lemma_div_pos_is_pos(scaled, n);
    vstd::arithmetic::div_mod::lemma_div_is_ordered(scaled, n * ONE_SQUARED, n);
    vstd::arithmetic::div_mod::lemma_div_multiples_vanish(ONE_SQUARED as int, n);
    assert(n * ONE_SQUARED == ONE_SQUARED * n) by (nonlinear_arith);
    assert(0 <= q <= ONE_SQUARED);
    lemma_sqrt_floor_bounds(q as nat);
    let m = sqrt_floor(q as nat) as int;
    assert(m == unit_magnitude(c, n));
    assert(m * m <= q < (m + 1) * (m + 1));
    assert(m <= ONE) by (nonlinear_arith)
        requires
            m >= 0,
            m * m <= 4294967296,
            ONE == 65536,
    ;
    assert(m * m * n <= q * n) by (nonlinear_arith)
        requires
            m * m <= q,
            n > 0,
    ;
    assert((q + 1) * n <= (m + 1) * (m + 1) * n) by (nonlinear_arith)
        requires
            q + 1 <= (m + 1) * (m + 1),
            n > 0,
    ;
    assert((q + 1) * n == q * n + n && q * n == n * q) by (nonlinear_arith);
    if c == 0 {
        assert(scaled == 0) by (nonlinear_arith)
            requires
                c == 0,
                scaled == c * c * ONE_SQUARED,
        ;
        assert(m == 0) by (nonlinear_arith)
            requires
                m >= 0,
                m * m <= q,
                q == 0,
        ;
    }
}

/// `unit_component(c, n)` is `c * ONE / sqrt(n)` rounded toward zero: less
/// than one unit from the true value, and never beyond it.
pub proof fn lemma_unit_component(c: int, n: int)
    requires
        n > 0,
        c * c <= n,
    ensures
        is_unit_component(c, n, unit_component(c, n)),
{
    lemma_unit_magnitude(c, n);
}

/// Normalizing once more moves a component of a normalized vector by at
/// most one unit, and never toward zero.
///
/// `a` is the magnitude of the component, `rest` the sum of the magnitudes
/// of the others, `t` the squared length of the normalized vector, which
/// falls short of `ONE_SQUARED` by no more than rounding toward zero allows.
pub proof fn lemma_unit_magnitude_again(a: int, rest: int, t: int)
    requires
        0 <= a <= ONE,
        0 <= rest <= 2 * ONE,
        rest * rest <= 2 * (t - a * a),
        ONE_SQUARED - 2 * (a + rest) - 2 <= t <= ONE_SQUARED,
    ensures
        a <= unit_magnitude(a, t) <= a + 1,
{
    let s = ONE_SQUARED as int;
    let sum = a + rest;
    assert(a * a >= 0 && rest * rest >= 0) by (nonlinear_arith);
    assert(t > 0);
    lemma_unit_magnitude(a, t);
    let m = unit_magnitude(a, t) as int;
    if m < a {
        // then (m + 1)² t <= a² t <= a² s, against what m is
        assert((m + 1) * (m + 1) * t <= a * a * t) by (nonlinear_arith)
            requires
                0 <= m + 1 <= a,
                t > 0,
        ;
        assert(a * a * t <= a * a * s) by (nonlinear_arith)
            requires
                t <= s,
        ;
    }
    if m >= a + 2 {
        // then m² t >= (a + 2)² t > a² s, against what m is
        assert(m * m * t >= (a + 2) * (a + 2) * t) by (nonlinear_arith)
            requires
                m >= a + 2,
                a >= 0,
                t > 0,
        ;
        assert((a + 2) * (a + 2) * t >= (a + 2) * (a + 2) * (s - 2 * sum - 2))
            by (nonlinear_arith)
            requires
                t >= s - 2 * sum - 2,
        ;
        // (a + 2)² (s - 2 sum - 2) - a² s = (4a + 4) s - (a + 2)² (2 sum + 2)
        assert((a + 2) * (a + 2) * (s - 2 * sum - 2) == a * a * s + (4 * a + 4) * s - (a + 2) * (a
            + 2) * (2 * sum + 2)) by (nonlinear_arith);
        if a <= 16 {
            assert((a + 2) * (a + 2) * (2 * sum + 2) <= 324 * 393218) by (nonlinear_arith)
                requires
                    0 <= a <= 16,
                    0 <= sum <= 196608,
            ;
            assert((4 * a + 4) * s >= 4 * s) by (nonlinear_arith)
                requires
                    a >= 0,
                    s > 0,
            ;
        } else {
            // 2 a sum <= 3 t
            assert(2 * a * rest <= a * a + rest * rest) by (nonlinear_arith);
            assert(2 * a * sum == 2 * (a * a) + 2 * a * rest) by (nonlinear_arith)
                requires
                    sum == a + rest,
            ;
            let twice = 2 * a * sum;
            assert(twice <= 3 * s);
            assert(a * twice <= a * (3 * s)) by (nonlinear_arith)
                requires
                    twice <= 3 * s,
                    a >= 0,
            ;
            assert((a + 2) * (a + 2) * (2 * sum + 2) == a * twice + 4 * twice + 8 * sum + 2 * ((a
                + 2) * (a + 2))) by (nonlinear_arith)
                requires
                    twice == 2 * a * sum,
            ;
            assert((a + 2) * (a + 2) <= 65538 * 65538) by (nonlinear_arith)
                requires
                    0 <= a <= 65536,
            ;
            assert(a * (3 * s) == 3 * (a * s) && (4 * a + 4) * s == 4 * (a * s) + 4 * s)
                by (nonlinear_arith);
            assert(a * s >= 17 * s) by (nonlinear_arith)
                requires
                    a >= 17,
                    s > 0,
            ;
        }
    }
}

/// `a * ONE_SQUARED / n`, rounded down, for `a <= n`: a ratio between zero
/// and one, as a fixed-point number with thirty-two fractional bits. The
/// product itself may need more than 128 bits; the quotient is built bit by
/// bit instead.
pub fn scale_ratio(a: u128, n: u128) -> (q: u128)
    requires
        n > 0,
        a <= n,
    ensures
        q == (a * ONE_SQUARED) / (n as int),
        q <= ONE_SQUARED,
{
    if a == n {
        proof {
            vstd::arithmetic::div_mod::lemma_div_multiples_vanish(ONE_SQUARED as int, n as int);
            assert(a * ONE_SQUARED == ONE_SQUARED * n) by (nonlinear_arith)
                requires
                    a == n,
            ;
        }
        return ONE_SQUARED as u128;
    }
    let mut q: u128 = 0;
    let mut rem: u128 = a;
    let mut k: u32 = 0;
    proof {
        vstd::arithmetic::power2::lemma2_to64();
        assert(a * 1 == 0 * n + a) by (nonlinear_arith);
    }
    while k < 32
        invariant
            k <= 32,
            n > 0,
            rem < n,
            q < vstd::arithmetic::power2::pow2(k as nat) <= 4294967296,
            a * vstd::arithmetic::power2::pow2(k as nat) == q * n + rem,
        decreases 32 - k,
    {
        let ghost p = vstd::arithmetic::power2::pow2(k as nat) as int;
        let ghost q0 = q as int;
        let ghost rem0 = rem as int;
        proof {
            vstd::arithmetic::power2::lemma_pow2_unfold((k + 1) as nat);
            vstd::arithmetic::power2::lemma2_to64();
            if k + 1 < 32 {
                vstd::arithmetic::power2::lemma_pow2_strictly_increases((k + 1) as nat, 32);
            }
            assert(a * (2 * p) == 2 * (a * p)) by (nonlinear_arith);
            assert((2 * q0) * n == 2 * (q0 * n) && (2 * q0 + 1) * n == 2 * (q0 * n) + n)
                by (nonlinear_arith);
        }
        if rem >= n - rem {
            rem = rem - (n - rem);
            q = 2 * q + 1;
        } else {
            rem = rem + rem;
            q = 2 * q;
        }
        k = k + 1;
    }
    proof {
        vstd::arithmetic::power2::lemma2_to64();
        vstd::arithmetic::div_mod::lemma_fundamental_div_mod_converse(
            a * ONE_SQUARED,
            n as int,
            q as int,
            rem as int,
        );
    }
    q
}

/// A component of a unit vector: `c * ONE / sqrt(n)` rounded toward zero,
/// for a component `c` of a vector whose squared length is `n`.
pub fn unit_part(c: i64, n: u128) -> (r: i64)
    requires
        n > 0,
        c * c <= n,
    ensures
        r == unit_component(c as int, n as int),
        is_unit_component(c as int, n as int, r as int),
{
    proof {
        lemma_unit_component(c as int, n as int);
    }
    let ratio = scale_ratio(square(c), n);
    assert(ratio == (c * c * ONE_SQUARED) / (n as int));
    let magnitude = isqrt(ratio) as i64;
    if c >= 0 {
        magnitude
    } else {
        -magnitude
    }
}

/// The exact square of a 64-bit number.
pub fn square(a: i64) -> (p: u128)
    ensures
        p == a * a,
        p <= 0x4000_0000_0000_0000_0000_0000_0000_0000,
{
    assert(0 <= a * a <= 0x4000_0000_0000_0000_0000_0000_0000_0000) by (nonlinear_arith)
        requires
            -0x8000_0000_0000_0000 <= a <= 0x7fff_ffff_ffff_ffff,
    ;
    let p: i128 = (a as i128) * (a as i128);
    p as u128
}

/// The integer square root of `n`.
pub fn isqrt(n: u128) -> (r: u64)
    ensures
        r == sqrt_floor(n as nat),
        is_sqrt_floor(n as nat, r as nat),
{
    let mut lo: u128 = 0;
    let mut hi: u128 = 0x1_0000_0000_0000_0000;
    assert(hi * hi == 0x1_0000_0000_0000_0000_0000_0000_0000_0000) by (nonlinear_arith)
        requires
            hi == 0x1_0000_0000_0000_0000,
    ;
    while hi - lo > 1
        invariant
            lo < hi <= 0x1_0000_0000_0000_0000,
            lo * lo <= n < hi * hi,
        decreases hi - lo,
    {
        let mid: u128 = lo + (hi - lo) / 2;
        assert(mid * mid <= 0xffff_ffff_ffff_ffff * 0xffff_ffff_ffff_ffff) by (nonlinear_arith)
            requires
                0 <= mid <= 0xffff_ffff_ffff_ffff,
        ;
        if mid * mid <= n {
            lo = mid;
        } else {
            hi = mid;
        }
    }
    proof {
        lemma_sqrt_floor_unique(n as nat, lo as nat);
    }
    lo as u64
}

} // verus!
