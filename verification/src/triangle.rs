//! World-space triangles.
use vstd::prelude::*;
use crate::fixed::{lemma_edge_products, ONE, ONE_SQUARED};
use crate::vec3f::Vec3f;

verus! {

/// A triangle of the mesh: three world-space corners and the texture
/// coordinate of each (`x` is u, `y` is v, `z` is not used).
///
/// The order of the corners is significant: it fixes the sign of the face
/// normal.
#[derive(Debug, Copy, Clone, PartialEq, Eq)]
pub struct Triangle {
    pub vertices: [Vec3f; 3],
    pub uv: [Vec3f; 3],
}

impl Triangle {
    /// Whether all three corners lie inside the coordinate limit.
    pub open spec fn in_range(self) -> bool {
        self.vertices[0].in_range() && self.vertices[1].in_range() && self.vertices[2].in_range()
    }

    /// The vector from `from` to `to`.
    pub open spec fn edge(from: Vec3f, to: Vec3f) -> Vec3f {
        Vec3f { x: (to.x - from.x) as i64, y: (to.y - from.y) as i64, z: (to.z - from.z) as i64 }
    }

    /// The vector product of the edge to the third corner and the edge to the
    /// second corner, both taken from the first corner.
    pub open spec fn edge_cross(self) -> Vec3f {
        let a = Self::edge(self.vertices[0], self.vertices[2]);
        let b = Self::edge(self.vertices[0], self.vertices[1]);
        Vec3f { x: a.cross_x(b) as i64, y: a.cross_y(b) as i64, z: a.cross_z(b) as i64 }
    }

    /// The unit face normal, `normalize((v2 - v0) × (v1 - v0))`, at the scale
    /// `ONE`. Each component is exact to less than one unit.
    pub open spec fn normal_spec(self) -> Vec3f {
        self.edge_cross().normalize_spec()
    }

    /// The triangle with its second and third corner exchanged.
    pub open spec fn flipped(self) -> Triangle {
        Triangle {
            vertices: [self.vertices[0], self.vertices[2], self.vertices[1]],
            uv: [self.uv[0], self.uv[2], self.uv[1]],
        }
    }

    /// The unit face normal. A triangle whose corners are on one line has
    /// the zero vector for its normal.
    pub fn normal(&self) -> (n: Vec3f)
        requires
            self.in_range(),
        ensures
            n == self.normal_spec(),
    {
        let a = self.vertices[2] - self.vertices[0];
        let b = self.vertices[1] - self.vertices[0];
        proof {
            self.lemma_edge_cross();
        }
        a.cross(&b).normalize()
    }

    /// The exact components of the edge product of a triangle inside the
    /// coordinate limit: each fits 64 bits.
    pub proof fn lemma_edge_cross(self)
        requires
            self.in_range(),
        ensures
            -0x2000_0000_0000_0000 <= self.edge_cross().x <= 0x2000_0000_0000_0000,
            -0x2000_0000_0000_0000 <= self.edge_cross().y <= 0x2000_0000_0000_0000,
            -0x2000_0000_0000_0000 <= self.edge_cross().z <= 0x2000_0000_0000_0000,
            self.edge_cross().x == (self.vertices[2].y - self.vertices[0].y) * (self.vertices[1].z
                - self.vertices[0].z) - (self.vertices[2].z - self.vertices[0].z) * (
            self.vertices[1].y - self.vertices[0].y),
            self.edge_cross().y == (self.vertices[2].z - self.vertices[0].z) * (self.vertices[1].x
                - self.vertices[0].x) - (self.vertices[2].x - self.vertices[0].x) * (
            self.vertices[1].z - self.vertices[0].z),
            self.edge_cross().z == (self.vertices[2].x - self.vertices[0].x) * (self.vertices[1].y
                - self.vertices[0].y) - (self.vertices[2].y - self.vertices[0].y) * (
            self.vertices[1].x - self.vertices[0].x),
    {
        let a = Self::edge(self.vertices[0], self.vertices[2]);
        let b = Self::edge(self.vertices[0], self.vertices[1]);
        lemma_edge_products(a.y as int, b.z as int, a.z as int, b.y as int);
        lemma_edge_products(a.z as int, b.x as int, a.x as int, b.z as int);
        lemma_edge_products(a.x as int, b.y as int, a.y as int, b.x as int);
    }

    /// Before it is normalized, the normal is exactly perpendicular to the
    /// two edges it is made from.
    pub proof fn lemma_edge_cross_perpendicular(self)
        requires
            self.in_range(),
        ensures
            self.edge_cross().dot_spec(Self::edge(self.vertices[0], self.vertices[1])) == 0,
            self.edge_cross().dot_spec(Self::edge(self.vertices[0], self.vertices[2])) == 0,
    {
        self.lemma_edge_cross();
        let a = Self::edge(self.vertices[0], self.vertices[2]);
        let b = Self::edge(self.vertices[0], self.vertices[1]);
        lemma_triple_product(
            a.x as int,
            a.y as int,
            a.z as int,
            b.x as int,
            b.y as int,
            b.z as int,
        );
    }

    /// The normal of a triangle whose corners are not on one line is a unit
    /// vector, as nearly as rounding toward zero allows: its squared length
    /// is at most `ONE_SQUARED` and falls short of it by less than `7 * ONE`.
    pub proof fn lemma_normal_is_unit(self)
        requires
            self.in_range(),
            self.edge_cross().norm_squared() > 0,
        ensures
            ONE_SQUARED - 7 * ONE <= self.normal_spec().squares() <= ONE_SQUARED,
    {
        self.edge_cross().lemma_normalize_unit();
    }

    /// The winding order fixes the side a triangle faces: exchanging two
    /// corners turns its normal around.
    pub proof fn lemma_flipped_normal(self)
        requires
            self.in_range(),
        ensures
            self.flipped().normal_spec() == self.normal_spec().negated(),
    {
        self.lemma_edge_cross();
        self.flipped().lemma_edge_cross();
        let a = Self::edge(self.vertices[0], self.vertices[2]);
        let b = Self::edge(self.vertices[0], self.vertices[1]);
        assert(b.cross_x(a) == -a.cross_x(b) && b.cross_y(a) == -a.cross_y(b) && b.cross_z(a)
            == -a.cross_z(b)) by (nonlinear_arith)
            requires
                b.cross_x(a) == b.y * a.z - b.z * a.y,
                a.cross_x(b) == a.y * b.z - a.z * b.y,
                b.cross_y(a) == b.z * a.x - b.x * a.z,
                a.cross_y(b) == a.z * b.x - a.x * b.z,
                b.cross_z(a) == b.x * a.y - b.y * a.x,
                a.cross_z(b) == a.x * b.y - a.y * b.x,
        ;
        assert(self.flipped().edge_cross() == self.edge_cross().negated());
        self.edge_cross().lemma_normalize_negated();
    }
}

/// A vector product is perpendicular to both of its factors.
proof fn lemma_triple_product(ax: int, ay: int, az: int, bx: int, by: int, bz: int)
    ensures
        (ay * bz - az * by) * bx + (az * bx - ax * bz) * by + (ax * by - ay * bx) * bz == 0,
        (ay * bz - az * by) * ax + (az * bx - ax * bz) * ay + (ax * by - ay * bx) * az == 0,
{
    assert((ay * bz - az * by) * bx == ay * bz * bx - az * by * bx) by (nonlinear_arith);
    assert((az * bx - ax * bz) * by == az * bx * by - ax * bz * by) by (nonlinear_arith);
    assert((ax * by - ay * bx) * bz == ax * by * bz - ay * bx * bz) by (nonlinear_arith);
    assert(ay * bz * bx == ay * bx * bz && az * by * bx == az * bx * by && ax * bz * by == ax * by
        * bz) by (nonlinear_arith);
    assert((ay * bz - az * by) * ax == ay * bz * ax - az * by * ax) by (nonlinear_arith);
    assert((az * bx - ax * bz) * ay == az * bx * ay - ax * bz * ay) by (nonlinear_arith);
    assert((ax * by - ay * bx) * az == ax * by * az - ay * bx * az) by (nonlinear_arith);
    assert(ay * bz * ax == ax * bz * ay && az * by * ax == ax * by * az && az * bx * ay == ay * bx
        * az) by (nonlinear_arith);
}

} // verus!
