//! Barycentric weights of a sample point with respect to a screen-space
//! triangle.
//!
//! The weights are exact: they are kept as three numerators over a common
//! positive denominator, so that the sign of a weight is never lost to
//! rounding.
use vstd::prelude::*;
use crate::fixed::{div_floor, lemma_edge_products, mul_wide, ONE_SQUARED};
use crate::vec2f::Vec2f;
use crate::vec3f::Vec3f;

verus! {

/// The area of one pixel, in squared fixed-point units. A triangle whose
/// doubled area is smaller in magnitude is treated as degenerate.
pub const UNIT_AREA: i64 = ONE_SQUARED;

/// Barycentric weights `w0 / den`, `w1 / den`, `w2 / den`.
#[derive(Debug, Copy, Clone, PartialEq, Eq, Structural)]
pub struct Weights {
    pub w0: i64,
    pub w1: i64,
    pub w2: i64,
    pub den: i64,
}

/// Twice the signed area of the triangle.
pub open spec fn area2(tri: [Vec2f; 3]) -> int {
    (tri[2].x - tri[0].x) * (tri[1].y - tri[0].y) - (tri[1].x - tri[0].x) * (tri[2].y - tri[0].y)
}

/// Twice the signed area of the triangle that `p` spans with the first two
/// corners; over `area2` it is the weight of the third corner.
pub open spec fn edge_x(tri: [Vec2f; 3], p: Vec2f) -> int {
    (tri[1].x - tri[0].x) * (tri[0].y - p.y) - (tri[0].x - p.x) * (tri[1].y - tri[0].y)
}

/// Twice the signed area of the triangle that `p` spans with the first and
/// the third corner; over `area2` it is the weight of the second corner.
pub open spec fn edge_y(tri: [Vec2f; 3], p: Vec2f) -> int {
    (tri[0].x - p.x) * (tri[2].y - tri[0].y) - (tri[2].x - tri[0].x) * (tri[0].y - p.y)
}

/// Whether the triangle covers less than a pixel's area.
pub open spec fn degenerate(tri: [Vec2f; 3]) -> bool {
    -UNIT_AREA < area2(tri) < UNIT_AREA
}

/// Whether all three corners lie inside the coordinate limit.
pub open spec fn corners_in_range(tri: [Vec2f; 3]) -> bool {
    tri[0].in_range() && tri[1].in_range() && tri[2].in_range()
}

/// The weights that mark a sample as lying in no triangle: `(-1, 1, 1)`.
pub open spec fn sentinel() -> Weights {
    Weights { w0: -1i64, w1: 1, w2: 1, den: 1 }
}

/// The barycentric weights of `p`: the sentinel for a degenerate triangle,
/// otherwise `1 - (u.x + u.y) / u.z`, `u.y / u.z`, `u.x / u.z` for
/// `u = (edge_x, edge_y, area2)`, written over the common denominator
/// `|u.z|`.
pub open spec fn weights_spec(tri: [Vec2f; 3], p: Vec2f) -> Weights {
    let ux = edge_x(tri, p);
    let uy = edge_y(tri, p);
    let uz = area2(tri);
    if degenerate(tri) {
        sentinel()
    } else if uz > 0 {
        Weights { w0: (uz - ux - uy) as i64, w1: uy as i64, w2: ux as i64, den: uz as i64 }
    } else {
        Weights { w0: (ux + uy - uz) as i64, w1: (-uy) as i64, w2: (-ux) as i64, den: (-uz) as i64 }
    }
}

/// The value at the sample of a quantity that is `a`, `b`, `c` at the three
/// corners: the weighted mean, rounded down.
pub open spec fn interpolate_spec(w: Weights, a: int, b: int, c: int) -> int {
    (w.w0 * a + w.w1 * b + w.w2 * c) / (w.den as int)
}

/// The smallest of three numbers.
pub open spec fn min3(a: int, b: int, c: int) -> int {
    if a <= b && a <= c {
        a
    } else if b <= c {
        b
    } else {
        c
    }
}

/// The largest of three numbers.
pub open spec fn max3(a: int, b: int, c: int) -> int {
    if a >= b && a >= c {
        a
    } else if b >= c {
        b
    } else {
        c
    }
}

impl Weights {
    /// The weights share a positive denominator and sum to one.
    pub open spec fn wf(self) -> bool {
        self.den > 0 && self.w0 + self.w1 + self.w2 == self.den
    }

    /// Whether the sample lies in the triangle: no weight is negative.
    pub open spec fn inside(self) -> bool {
        self.w0 >= 0 && self.w1 >= 0 && self.w2 >= 0
    }

    /// Whether the sample lies in the triangle.
    pub fn is_inside(&self) -> (b: bool)
        ensures
            b == self.inside(),
    {
        self.w0 >= 0 && self.w1 >= 0 && self.w2 >= 0
    }

    /// The weighted mean of three corner values at a sample inside the
    /// triangle, rounded down. It lies between the smallest and the largest
    /// of the three.
    pub fn interpolate(&self, a: i64, b: i64, c: i64) -> (r: i64)
        requires
            self.wf(),
            self.inside(),
        ensures
            r == interpolate_spec(*self, a as int, b as int, c as int),
            min3(a as int, b as int, c as int) <= r <= max3(a as int, b as int, c as int),
    {
        proof {
            lemma_weighted_mean(
                self.w0 as int,
                self.w1 as int,
                self.w2 as int,
                self.den as int,
                a as int,
                b as int,
                c as int,
            );
            lemma_scaled_bound(
                self.w0 + self.w1,
                min3(a as int, b as int, c as int),
                max3(a as int, b as int, c as int),
            );
            lemma_scaled_bound(
                self.den as int,
                min3(a as int, b as int, c as int),
                max3(a as int, b as int, c as int),
            );
        }
        let sum = mul_wide(self.w0, a) + mul_wide(self.w1, b) + mul_wide(self.w2, c);
        div_floor(sum, self.den as i128) as i64
    }
}

/// A weighted mean with non-negative weights lies between the least and the
/// greatest of its terms, and so does every partial sum, scaled.
pub proof fn lemma_weighted_mean(w0: int, w1: int, w2: int, den: int, a: int, b: int, c: int)
    requires
        w0 >= 0,
        w1 >= 0,
        w2 >= 0,
        den > 0,
        w0 + w1 + w2 == den,
    ensures
        (w0 + w1) * min3(a, b, c) <= w0 * a + w1 * b <= (w0 + w1) * max3(a, b, c),
        den * min3(a, b, c) <= w0 * a + w1 * b + w2 * c <= den * max3(a, b, c),
        min3(a, b, c) <= (w0 * a + w1 * b + w2 * c) / den <= max3(a, b, c),
{
    let lo = min3(a, b, c);
    let hi = max3(a, b, c);
    assert(w0 * lo <= w0 * a <= w0 * hi) by (nonlinear_arith)
        requires
            w0 >= 0,
            lo <= a <= hi,
    ;
    assert(w1 * lo <= w1 * b <= w1 * hi) by (nonlinear_arith)
        requires
            w1 >= 0,
            lo <= b <= hi,
    ;
    assert(w2 * lo <= w2 * c <= w2 * hi) by (nonlinear_arith)
        requires
            w2 >= 0,
            lo <= c <= hi,
    ;
    assert((w0 + w1) * lo == w0 * lo + w1 * lo && (w0 + w1) * hi == w0 * hi + w1 * hi)
        by (nonlinear_arith);
    assert(den * lo == w0 * lo + w1 * lo + w2 * lo && den * hi == w0 * hi + w1 * hi + w2 * hi)
        by (nonlinear_arith)
        requires
            den == w0 + w1 + w2,
    ;
    let s = w0 * a + w1 * b + w2 * c;
    vstd::arithmetic::div_mod::lemma_div_is_ordered(den * lo, s, den);
    vstd::arithmetic::div_mod::lemma_div_is_ordered(s, den * hi, den);
    vstd::arithmetic::div_mod::lemma_div_multiples_vanish(lo, den);
    vstd::arithmetic::div_mod::lemma_div_multiples_vanish(hi, den);
}

/// A 64-bit quantity scaled by a non-negative 64-bit weight fits 128 bits.
proof fn lemma_scaled_bound(w: int, lo: int, hi: int)
    requires
        0 <= w <= i64::MAX,
        i64::MIN <= lo <= hi <= i64::MAX,
    ensures
        -0x4000_0000_0000_0000_0000_0000_0000_0000 <= w * lo,
        w * hi <= 0x4000_0000_0000_0000_0000_0000_0000_0000,
{
    assert(-0x4000_0000_0000_0000_0000_0000_0000_0000 <= w * lo) by (nonlinear_arith)
        requires
            0 <= w <= 0x7fff_ffff_ffff_ffff,
            -0x8000_0000_0000_0000 <= lo,
    ;
    assert(w * hi <= 0x4000_0000_0000_0000_0000_0000_0000_0000) by (nonlinear_arith)
        requires
            0 <= w <= 0x7fff_ffff_ffff_ffff,
            hi <= 0x7fff_ffff_ffff_ffff,
    ;
}

/// Inside the coordinate limit every term of the weights fits 64 bits, so
/// the weights of a triangle that is not degenerate are exactly the three
/// sub-areas over the area.
pub proof fn lemma_weights_exact(tri: [Vec2f; 3], p: Vec2f)
    requires
        corners_in_range(tri),
        p.in_range(),
    ensures
        -0x2000_0000_0000_0000 <= area2(tri) <= 0x2000_0000_0000_0000,
        -0x2000_0000_0000_0000 <= edge_x(tri, p) <= 0x2000_0000_0000_0000,
        -0x2000_0000_0000_0000 <= edge_y(tri, p) <= 0x2000_0000_0000_0000,
        weights_spec(tri, p).wf(),
        !degenerate(tri) && area2(tri) > 0 ==> {
            &&& weights_spec(tri, p).w0 == area2(tri) - edge_x(tri, p) - edge_y(tri, p)
            &&& weights_spec(tri, p).w1 == edge_y(tri, p)
            &&& weights_spec(tri, p).w2 == edge_x(tri, p)
            &&& weights_spec(tri, p).den == area2(tri)
        },
        !degenerate(tri) && area2(tri) < 0 ==> {
            &&& weights_spec(tri, p).w0 == edge_x(tri, p) + edge_y(tri, p) - area2(tri)
            &&& weights_spec(tri, p).w1 == -edge_y(tri, p)
            &&& weights_spec(tri, p).w2 == -edge_x(tri, p)
            &&& weights_spec(tri, p).den == -area2(tri)
        },
{
    lemma_edge_products(
        tri[2].x - tri[0].x,
        tri[1].y - tri[0].y,
        tri[1].x - tri[0].x,
        tri[2].y - tri[0].y,
    );
    lemma_edge_products(
        tri[1].x - tri[0].x,
        tri[0].y - p.y,
        tri[0].x - p.x,
        tri[1].y - tri[0].y,
    );
    lemma_edge_products(
        tri[0].x - p.x,
        tri[2].y - tri[0].y,
        tri[2].x - tri[0].x,
        tri[0].y - p.y,
    );
}

/// The sub-areas that `p` spans with the corners, weighted with the corners,
/// give back `p` scaled by the area.
proof fn lemma_area_identity(
    x0: int,
    y0: int,
    x1: int,
    y1: int,
    x2: int,
    y2: int,
    px: int,
    py: int,
)
    ensures
        ({
            let ux = (x1 - x0) * (y0 - py) - (x0 - px) * (y1 - y0);
            let uy = (x0 - px) * (y2 - y0) - (x2 - x0) * (y0 - py);
            let uz = (x2 - x0) * (y1 - y0) - (x1 - x0) * (y2 - y0);
            &&& uz * px == (uz - ux - uy) * x0 + uy * x1 + ux * x2
            &&& uz * py == (uz - ux - uy) * y0 + uy * y1 + ux * y2
        }),
{
    let a = x2 - x0;
    let b = x1 - x0;
    let c = y2 - y0;
    let d = y1 - y0;
    let e = x0 - px;
    let f = y0 - py;
    let ux = b * f - e * d;
    let uy = e * c - a * f;
    let uz = a * d - b * c;
    assert(uy * b + ux * a == -(e * uz)) by (nonlinear_arith)
        requires
            ux == b * f - e * d,
            uy == e * c - a * f,
            uz == a * d - b * c,
    ;
    assert(uy * d + ux * c == -(f * uz)) by (nonlinear_arith)
        requires
            ux == b * f - e * d,
            uy == e * c - a * f,
            uz == a * d - b * c,
    ;
    assert((uz - ux - uy) * x0 + uy * x1 + ux * x2 == uz * x0 + uy * b + ux * a)
        by (nonlinear_arith)
        requires
            b == x1 - x0,
            a == x2 - x0,
    ;
    assert((uz - ux - uy) * y0 + uy * y1 + ux * y2 == uz * y0 + uy * d + ux * c)
        by (nonlinear_arith)
        requires
            d == y1 - y0,
            c == y2 - y0,
    ;
    assert(uz * px == uz * x0 - e * uz) by (nonlinear_arith)
        requires
            e == x0 - px,
    ;
    assert(uz * py == uz * y0 - f * uz) by (nonlinear_arith)
        requires
            f == y0 - py,
    ;
}

/// The weights of a triangle that is not degenerate express the sample as a
/// combination of the corners: `den * p = w0 * v0 + w1 * v1 + w2 * v2`.
pub proof fn lemma_weights_locate(tri: [Vec2f; 3], p: Vec2f)
    requires
        corners_in_range(tri),
        p.in_range(),
        !degenerate(tri),
    ensures
        ({
            let w = weights_spec(tri, p);
            &&& w.den * p.x == w.w0 * tri[0].x + w.w1 * tri[1].x + w.w2 * tri[2].x
            &&& w.den * p.y == w.w0 * tri[0].y + w.w1 * tri[1].y + w.w2 * tri[2].y
        }),
{
    lemma_weights_exact(tri, p);
    lemma_area_identity(
        tri[0].x as int,
        tri[0].y as int,
        tri[1].x as int,
        tri[1].y as int,
        tri[2].x as int,
        tri[2].y as int,
        p.x as int,
        p.y as int,
    );
    let ux = edge_x(tri, p);
    let uy = edge_y(tri, p);
    let uz = area2(tri);
    if uz < 0 {
        lemma_negated_combination(uz, uz - ux - uy, uy, ux, p.x as int, tri[0].x as int, tri[1].x as int, tri[2].x as int);
        lemma_negated_combination(uz, uz - ux - uy, uy, ux, p.y as int, tri[0].y as int, tri[1].y as int, tri[2].y as int);
    }
}

/// Negating every coefficient of a combination negates both sides.
proof fn lemma_negated_combination(d: int, a: int, b: int, c: int, p: int, x: int, y: int, z: int)
    requires
        d * p == a * x + b * y + c * z,
    ensures
        (-d) * p == (-a) * x + (-b) * y + (-c) * z,
{
    assert((-d) * p == -(d * p)) by (nonlinear_arith);
    assert((-a) * x == -(a * x)) by (nonlinear_arith);
    assert((-b) * y == -(b * y)) by (nonlinear_arith);
    assert((-c) * z == -(c * z)) by (nonlinear_arith);
}

/// At each corner of a triangle that is not degenerate the weight of that
/// corner is one and the other two are zero.
pub proof fn lemma_weights_at_corners(tri: [Vec2f; 3])
    requires
        corners_in_range(tri),
        !degenerate(tri),
    ensures
        ({
            let w = weights_spec(tri, tri[0]);
            w.w0 == w.den && w.w1 == 0 && w.w2 == 0
        }),
        ({
            let w = weights_spec(tri, tri[1]);
            w.w0 == 0 && w.w1 == w.den && w.w2 == 0
        }),
        ({
            let w = weights_spec(tri, tri[2]);
            w.w0 == 0 && w.w1 == 0 && w.w2 == w.den
        }),
{
    lemma_weights_exact(tri, tri[0]);
    lemma_weights_exact(tri, tri[1]);
    lemma_weights_exact(tri, tri[2]);
    let a = tri[2].x - tri[0].x;
    let b = tri[1].x - tri[0].x;
    let c = tri[2].y - tri[0].y;
    let d = tri[1].y - tri[0].y;
    assert(b * 0 - 0 * d == 0 && 0 * c - a * 0 == 0) by (nonlinear_arith);
    assert(b * (-d) - (-b) * d == 0 && (-b) * c - a * (-d) == a * d - b * c) by (nonlinear_arith);
    assert(b * (-c) - (-a) * d == a * d - b * c && (-a) * c - a * (-c) == 0) by (nonlinear_arith);
}

/// Whether `a / d`, `b / d`, `c / d` are weights of a convex combination of
/// the corners that yields `p`.
pub open spec fn convex_combination(
    tri: [Vec2f; 3],
    p: Vec2f,
    a: int,
    b: int,
    c: int,
    d: int,
) -> bool {
    &&& a >= 0 && b >= 0 && c >= 0 && d > 0
    &&& a + b + c == d
    &&& d * p.x == a * tri[0].x + b * tri[1].x + c * tri[2].x
    &&& d * p.y == a * tri[0].y + b * tri[1].y + c * tri[2].y
}

/// Whether `p` lies in the convex hull of the corners.
pub open spec fn in_hull(tri: [Vec2f; 3], p: Vec2f) -> bool {
    exists|a: int, b: int, c: int, d: int| #[trigger] convex_combination(tri, p, a, b, c, d)
}

/// A sample outside the convex hull of the corners has a negative weight.
pub proof fn lemma_outside_has_negative_weight(tri: [Vec2f; 3], p: Vec2f)
    requires
        corners_in_range(tri),
        p.in_range(),
        !in_hull(tri, p),
    ensures
        !weights_spec(tri, p).inside(),
{
    let w = weights_spec(tri, p);
    if !degenerate(tri) && w.inside() {
        lemma_weights_exact(tri, p);
        lemma_weights_locate(tri, p);
        assert(convex_combination(tri, p, w.w0 as int, w.w1 as int, w.w2 as int, w.den as int));
    }
}

/// A sample in the convex hull of the corners of a triangle that is not
/// degenerate has no negative weight.
pub proof fn lemma_in_hull_has_no_negative_weight(tri: [Vec2f; 3], p: Vec2f)
    requires
        corners_in_range(tri),
        p.in_range(),
        !degenerate(tri),
        in_hull(tri, p),
    ensures
        weights_spec(tri, p).inside(),
{
    lemma_weights_exact(tri, p);
    let (l0, l1, l2, k) = choose|a: int, b: int, c: int, d: int| #[trigger]
        convex_combination(tri, p, a, b, c, d);
    let a = tri[2].x - tri[0].x;
    let b = tri[1].x - tri[0].x;
    let c = tri[2].y - tri[0].y;
    let d = tri[1].y - tri[0].y;
    let e = tri[0].x - p.x;
    let f = tri[0].y - p.y;
    let ux = edge_x(tri, p);
    let uy = edge_y(tri, p);
    let uz = area2(tri);
    lemma_offset_from_first(k, l0, l1, l2, p.x as int, tri[0].x as int, tri[1].x as int, tri[2].x as int);
    lemma_offset_from_first(k, l0, l1, l2, p.y as int, tri[0].y as int, tri[1].y as int, tri[2].y as int);
    lemma_shares(a, b, c, d, e, f, l1, l2, k);
    assert(k * (uz - ux - uy) == l0 * uz) by (nonlinear_arith)
        requires
            k * ux == l2 * uz,
            k * uy == l1 * uz,
            l0 + l1 + l2 == k,
    ;
    lemma_sign_of_share(k, ux, l2, uz);
    lemma_sign_of_share(k, uy, l1, uz);
    lemma_sign_of_share(k, uz - ux - uy, l0, uz);
}

/// A combination of three points with total weight `k`, seen from the first
/// point: `k * (x0 - p) = -l1 * (x1 - x0) - l2 * (x2 - x0)`.
proof fn lemma_offset_from_first(k: int, l0: int, l1: int, l2: int, p: int, x0: int, x1: int, x2: int)
    requires
        l0 + l1 + l2 == k,
        k * p == l0 * x0 + l1 * x1 + l2 * x2,
    ensures
        k * (x0 - p) == -(l1 * (x1 - x0)) - l2 * (x2 - x0),
{
    assert(k * (x0 - p) == k * x0 - k * p) by (nonlinear_arith);
    assert(k * x0 == l0 * x0 + l1 * x0 + l2 * x0) by (nonlinear_arith)
        requires
            l0 + l1 + l2 == k,
    ;
    assert(l1 * (x1 - x0) == l1 * x1 - l1 * x0) by (nonlinear_arith);
    assert(l2 * (x2 - x0) == l2 * x2 - l2 * x0) by (nonlinear_arith);
}

/// Cramer's rule for the two weights of a combination seen from the first
/// point.
proof fn lemma_shares(a: int, b: int, c: int, d: int, e: int, f: int, l1: int, l2: int, k: int)
    requires
        k * e == -(l1 * b) - l2 * a,
        k * f == -(l1 * d) - l2 * c,
    ensures
        k * (b * f - e * d) == l2 * (a * d - b * c),
        k * (e * c - a * f) == l1 * (a * d - b * c),
{
    let ke = k * e;
    let kf = k * f;
    assert(k * (b * f - e * d) == b * kf - ke * d) by (nonlinear_arith)
        requires
            ke == k * e,
            kf == k * f,
    ;
    assert(k * (e * c - a * f) == ke * c - a * kf) by (nonlinear_arith)
        requires
            ke == k * e,
            kf == k * f,
    ;
    let m = -(l1 * d) - l2 * c;
    let n = -(l1 * b) - l2 * a;
    assert(b * m - n * d == l2 * (a * d - b * c)) by (nonlinear_arith)
        requires
            m == -(l1 * d) - l2 * c,
            n == -(l1 * b) - l2 * a,
    ;
    assert(n * c - a * m == l1 * (a * d - b * c)) by (nonlinear_arith)
        requires
            m == -(l1 * d) - l2 * c,
            n == -(l1 * b) - l2 * a,
    ;
}

/// If `k * u == l * z` with `k > 0` and `l >= 0`, then `u` has the sign of
/// `z` or is zero.
proof fn lemma_sign_of_share(k: int, u: int, l: int, z: int)
    requires
        k > 0,
        l >= 0,
        k * u == l * z,
    ensures
        z > 0 ==> u >= 0,
        z < 0 ==> u <= 0,
{
    if z > 0 && u < 0 {
        assert(k * u < 0) by (nonlinear_arith)
            requires
                k > 0,
                u < 0,
        ;
        assert(l * z >= 0) by (nonlinear_arith)
            requires
                l >= 0,
                z > 0,
        ;
    }
    if z < 0 && u > 0 {
        assert(k * u > 0) by (nonlinear_arith)
            requires
                k > 0,
                u > 0,
        ;
        assert(l * z <= 0) by (nonlinear_arith)
            requires
                l >= 0,
                z < 0,
        ;
    }
}

/// The barycentric weights of the sample point `p`.
///
/// A triangle of less than a pixel's area yields the sentinel `(-1, 1, 1)`,
/// which no inside test accepts.
pub fn barycentric(tri: &[Vec2f; 3], p: Vec2f) -> (w: Weights)
    requires
        corners_in_range(*tri),
        p.in_range(),
    ensures
        w == weights_spec(*tri, p),
        w.wf(),
        degenerate(*tri) ==> w == sentinel(),
{
    proof {
        lemma_weights_exact(*tri, p);
    }
    let u = Vec3f::new(tri[2].x - tri[0].x, tri[1].x - tri[0].x, tri[0].x - p.x).cross(
        &Vec3f::new(tri[2].y - tri[0].y, tri[1].y - tri[0].y, tri[0].y - p.y),
    );
    if -UNIT_AREA < u.z && u.z < UNIT_AREA {
        return Weights { w0: -1, w1: 1, w2: 1, den: 1 };
    }
    if u.z > 0 {
        Weights { w0: u.z - u.x - u.y, w1: u.y, w2: u.x, den: u.z }
    } else {
        Weights { w0: u.x + u.y - u.z, w1: -u.y, w2: -u.x, den: -u.z }
    }
}

} // verus!
