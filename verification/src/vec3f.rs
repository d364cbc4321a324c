//! Three-component fixed-point vectors.
use vstd::prelude::*;
use crate::fixed::{
    coord_in_range, is_sqrt_floor, is_unit_component, isqrt, lemma_sqrt_floor_bounds, lemma_unit_component, lemma_unit_magnitude,
    lemma_unit_magnitude_again,
    lemma_sqrt_floor_unique, lemma_zero_square, mul_wide, sqrt_floor, square, unit_component,
    unit_magnitude, unit_part, COORD_LIMIT, ONE, ONE_SQUARED,
};

verus! {

/// A vector (or point) with three fixed-point components.
#[derive(Debug, Copy, Clone, PartialEq, Eq, Structural)]
pub struct Vec3f {
    pub x: i64,
    pub y: i64,
    pub z: i64,
}

impl Vec3f {
    /// Whether every component lies inside the coordinate limit.
    pub open spec fn in_range(self) -> bool {
        coord_in_range(self.x as int) && coord_in_range(self.y as int) && coord_in_range(
            self.z as int,
        )
    }

    /// The exact scalar product. It is not scaled back: for operands at the
    /// scale `ONE` it is a number at the scale `ONE_SQUARED`, with thirty-two
    /// fractional bits.
    pub open spec fn dot_spec(self, v: Vec3f) -> int {
        self.x * v.x + self.y * v.y + self.z * v.z
    }

    /// First component of the exact vector product. Like every product it is
    /// at the scale `ONE_SQUARED` where the operands are at the scale `ONE`.
    pub open spec fn cross_x(self, v: Vec3f) -> int {
        self.y * v.z - self.z * v.y
    }

    /// Second component of the exact vector product. Like every product it is
    /// at the scale `ONE_SQUARED` where the operands are at the scale `ONE`.
    pub open spec fn cross_y(self, v: Vec3f) -> int {
        self.z * v.x - self.x * v.z
    }

    /// Third component of the exact vector product. Like every product it is
    /// at the scale `ONE_SQUARED` where the operands are at the scale `ONE`.
    pub open spec fn cross_z(self, v: Vec3f) -> int {
        self.x * v.y - self.y * v.x
    }

    /// The squared Euclidean length.
    pub open spec fn norm_squared(self) -> nat {
        (self.x * self.x + self.y * self.y + self.z * self.z) as nat
    }

    /// The Euclidean length, rounded down to a whole number of units.
    pub open spec fn length_spec(self) -> nat {
        sqrt_floor(self.norm_squared())
    }

    /// The unit vector of the same direction: each component is the true
    /// `c * ONE / |v|`, rounded toward zero. Nothing is rounded before the
    /// end, so every component is less than one unit from the true value,
    /// however short or long the vector. The zero vector is its own
    /// normalization.
    pub open spec fn normalize_spec(self) -> Vec3f {
        let n = self.norm_squared() as int;
        if n > 0 {
            Vec3f {
                x: unit_component(self.x as int, n) as i64,
                y: unit_component(self.y as int, n) as i64,
                z: unit_component(self.z as int, n) as i64,
            }
        } else {
            self
        }
    }

    /// The sum of the squares of the components, at the scale `ONE_SQUARED`.
    pub open spec fn squares(self) -> int {
        self.x * self.x + self.y * self.y + self.z * self.z
    }

    /// The vector turned around.
    pub open spec fn negated(self) -> Vec3f {
        Vec3f { x: (-self.x) as i64, y: (-self.y) as i64, z: (-self.z) as i64 }
    }

    /// The vector with the given components.
    pub fn new(x: i64, y: i64, z: i64) -> (v: Vec3f)
        ensures
            v == (Vec3f { x, y, z }),
    {
        Vec3f { x, y, z }
    }

    /// The zero vector.
    pub fn new_zero() -> (v: Vec3f)
        ensures
            v == (Vec3f { x: 0, y: 0, z: 0 }),
    {
        Vec3f { x: 0, y: 0, z: 0 }
    }

    /// Whether every component lies inside the coordinate limit.
    pub fn is_in_range(&self) -> (b: bool)
        ensures
            b == self.in_range(),
    {
        -COORD_LIMIT <= self.x && self.x <= COORD_LIMIT
            && -COORD_LIMIT <= self.y && self.y <= COORD_LIMIT
            && -COORD_LIMIT <= self.z && self.z <= COORD_LIMIT
    }

    /// The exact vector product `self × v`.
    ///
    /// The components are not scaled back: for operands at the scale `ONE`
    /// the result is a vector at the scale `ONE_SQUARED`, though of the same
    /// type. `normalize` brings a vector of any scale to the scale `ONE`.
    pub fn cross(&self, v: &Vec3f) -> (r: Vec3f)
        requires
            i64::MIN <= self.cross_x(*v) <= i64::MAX,
            i64::MIN <= self.cross_y(*v) <= i64::MAX,
            i64::MIN <= self.cross_z(*v) <= i64::MAX,
        ensures
            r.x == self.cross_x(*v),
            r.y == self.cross_y(*v),
            r.z == self.cross_z(*v),
    {
        Vec3f {
            x: (mul_wide(self.y, v.z) - mul_wide(self.z, v.y)) as i64,
            y: (mul_wide(self.z, v.x) - mul_wide(self.x, v.z)) as i64,
            z: (mul_wide(self.x, v.y) - mul_wide(self.y, v.x)) as i64,
        }
    }

    /// The exact scalar product `self · v`.
    ///
    /// It is not scaled back: for operands at the scale `ONE` the result is
    /// at the scale `ONE_SQUARED`; divide by `ONE` for a number at the scale
    /// `ONE`.
    pub fn dot(&self, v: &Vec3f) -> (r: i64)
        requires
            i64::MIN <= self.dot_spec(*v) <= i64::MAX,
        ensures
            r == self.dot_spec(*v),
    {
        let xx = mul_wide(self.x, v.x);
        let yy = mul_wide(self.y, v.y);
        let zz = mul_wide(self.z, v.z);
        (xx + yy + zz) as i64
    }

    /// The Euclidean length, rounded down.
    pub fn length(&self) -> (r: u64)
        ensures
            r == self.length_spec(),
    {
        isqrt(square(self.x) + square(self.y) + square(self.z))
    }

    /// The vector scaled to unit length; the zero vector is returned as it is.
    ///
    /// Each component of the result is the true `c * ONE / |v|` rounded
    /// toward zero, so the squared length of the result falls short of
    /// `ONE_SQUARED` by less than `7 * ONE`.
    pub fn normalize(&self) -> (r: Vec3f)
        ensures
            r == self.normalize_spec(),
            self.norm_squared() == 0 ==> r == *self,
            self.length_spec() == 0 ==> r == *self,
            self.norm_squared() > 0 ==> {
                &&& is_unit_component(self.x as int, self.norm_squared() as int, r.x as int)
                &&& is_unit_component(self.y as int, self.norm_squared() as int, r.y as int)
                &&& is_unit_component(self.z as int, self.norm_squared() as int, r.z as int)
                &&& ONE_SQUARED - 7 * ONE <= r.squares() <= ONE_SQUARED
            },
    {
        proof {
            self.lemma_components_below_norm();
            if self.norm_squared() > 0 {
                self.lemma_normalize_accurate();
                self.lemma_normalize_unit();
            }
            if self.length_spec() == 0 {
                self.lemma_zero_length();
            }
        }
        let n = square(self.x) + square(self.y) + square(self.z);
        if n > 0 {
            Vec3f {
                x: unit_part(self.x, n),
                y: unit_part(self.y, n),
                z: unit_part(self.z, n),
            }
        } else {
            *self
        }
    }

    /// No square of a component exceeds the squared length.
    pub proof fn lemma_components_below_norm(self)
        ensures
            0 <= self.x * self.x <= self.norm_squared(),
            0 <= self.y * self.y <= self.norm_squared(),
            0 <= self.z * self.z <= self.norm_squared(),
            self.norm_squared() == self.squares(),
    {
        assert(self.x * self.x >= 0 && self.y * self.y >= 0 && self.z * self.z >= 0)
            by (nonlinear_arith);
    }

    /// The components of the normalization are exact to less than one unit:
    /// each is the true `c * ONE / |v|` rounded toward zero.
    pub proof fn lemma_normalize_accurate(self)
        requires
            self.norm_squared() > 0,
        ensures
            self.normalize_spec().x == unit_component(self.x as int, self.norm_squared() as int),
            is_unit_component(
                self.x as int,
                self.norm_squared() as int,
                self.normalize_spec().x as int,
            ),
            self.normalize_spec().y == unit_component(self.y as int, self.norm_squared() as int),
            is_unit_component(
                self.y as int,
                self.norm_squared() as int,
                self.normalize_spec().y as int,
            ),
            self.normalize_spec().z == unit_component(self.z as int, self.norm_squared() as int),
            is_unit_component(
                self.z as int,
                self.norm_squared() as int,
                self.normalize_spec().z as int,
            ),
    {
        self.lemma_components_below_norm();
        lemma_unit_component(self.x as int, self.norm_squared() as int);
        lemma_unit_component(self.y as int, self.norm_squared() as int);
        lemma_unit_component(self.z as int, self.norm_squared() as int);
    }

    /// A normalized vector has unit length, as nearly as rounding toward zero
    /// allows: its squared length is at most `ONE_SQUARED` and falls short
    /// of it by less than `7 * ONE`.
    pub proof fn lemma_normalize_unit(self)
        requires
            self.norm_squared() > 0,
        ensures
            ONE_SQUARED - 7 * ONE <= self.normalize_spec().squares() <= ONE_SQUARED,
            ONE_SQUARED - 2 * (
                unit_magnitude(self.x as int, self.norm_squared() as int)
                + unit_magnitude(self.y as int, self.norm_squared() as int)
                + unit_magnitude(self.z as int, self.norm_squared() as int)
            ) - 2 <= self.normalize_spec().squares(),
            self.normalize_spec().norm_squared() == self.normalize_spec().squares(),
    {
        let n = self.norm_squared() as int;
        self.lemma_normalize_accurate();
        self.normalize_spec().lemma_components_below_norm();
        self.lemma_components_below_norm();
        lemma_unit_magnitude(self.x as int, n);
        lemma_unit_magnitude(self.y as int, n);
        lemma_unit_magnitude(self.z as int, n);
        let mx = unit_magnitude(self.x as int, n) as int;
        let my = unit_magnitude(self.y as int, n) as int;
        let mz = unit_magnitude(self.z as int, n) as int;
        let r = self.normalize_spec();
        assert(r.x * r.x == mx * mx) by (nonlinear_arith)
            requires
                r.x == mx || r.x == -mx,
        ;
        assert(r.y * r.y == my * my) by (nonlinear_arith)
            requires
                r.y == my || r.y == -my,
        ;
        assert(r.z * r.z == mz * mz) by (nonlinear_arith)
            requires
                r.z == mz || r.z == -mz,
        ;
        let total = mx * mx + my * my + mz * mz;
        let above = (mx + 1) * (mx + 1) + (my + 1) * (my + 1) + (mz + 1) * (mz + 1);
        assert(total * n == mx * mx * n + my * my * n + mz * mz * n) by (nonlinear_arith)
            requires
                total == mx * mx + my * my + mz * mz,
        ;
        assert(above * n == (mx + 1) * (mx + 1) * n
            + (my + 1) * (my + 1) * n
            + (mz + 1) * (mz + 1) * n)
            by (nonlinear_arith)
            requires
                above == (mx + 1) * (mx + 1) + (my + 1) * (my + 1) + (mz + 1) * (mz + 1),
        ;
        assert((self.x * self.x + self.y * self.y + self.z * self.z) * ONE_SQUARED
            == self.x * self.x * ONE_SQUARED
            + self.y * self.y * ONE_SQUARED
            + self.z * self.z * ONE_SQUARED) by (nonlinear_arith);
        assert(total <= ONE_SQUARED) by (nonlinear_arith)
            requires
                total * n <= ONE_SQUARED * n,
                n > 0,
        ;
        assert(above > ONE_SQUARED) by (nonlinear_arith)
            requires
                above * n > ONE_SQUARED * n,
                n > 0,
        ;
        assert(above == total + 2 * (mx + my + mz) + 3) by (nonlinear_arith)
            requires
                total == mx * mx + my * my + mz * mz,
                above == (mx + 1) * (mx + 1) + (my + 1) * (my + 1) + (mz + 1) * (mz + 1),
        ;
    }

    /// The zero vector has length zero and is its own normalization.
    pub proof fn lemma_normalize_zero()
        ensures
            (Vec3f { x: 0, y: 0, z: 0 }).length_spec() == 0,
            (Vec3f { x: 0, y: 0, z: 0 }).normalize_spec() == (Vec3f { x: 0, y: 0, z: 0 }),
    {
        assert(is_sqrt_floor(0, 0)) by (nonlinear_arith);
        lemma_sqrt_floor_unique(0, 0);
        (Vec3f { x: 0, y: 0, z: 0 }).lemma_components_below_norm();
    }

    /// Normalizing commutes with turning a vector around: rounding toward
    /// zero treats both directions alike.
    pub proof fn lemma_normalize_negated(self)
        requires
            self.x > i64::MIN,
            self.y > i64::MIN,
            self.z > i64::MIN,
        ensures
            self.negated().norm_squared() == self.norm_squared(),
            self.negated().normalize_spec() == self.normalize_spec().negated(),
    {
        let back = self.negated();
        assert(back.x * back.x == self.x * self.x && back.y * back.y == self.y * self.y && back.z
            * back.z == self.z * self.z) by (nonlinear_arith)
            requires
                back.x == -self.x,
                back.y == -self.y,
                back.z == -self.z,
        ;
        if self.norm_squared() > 0 {
            self.lemma_normalize_accurate();
            back.lemma_normalize_accurate();
            let n = self.norm_squared() as int;
            lemma_unit_magnitude(self.x as int, n);
            lemma_unit_magnitude(self.y as int, n);
            lemma_unit_magnitude(self.z as int, n);
        }
    }

    /// Only the zero vector has length zero.
    pub proof fn lemma_zero_length(self)
        requires
            self.length_spec() == 0,
        ensures
            self.x == 0 && self.y == 0 && self.z == 0,
            self.norm_squared() == 0,
    {
        lemma_sqrt_floor_bounds(self.norm_squared());
        assert(self.x * self.x >= 0 && self.y * self.y >= 0 && self.z * self.z >= 0)
            by (nonlinear_arith);
        lemma_zero_square(self.x as int);
        lemma_zero_square(self.y as int);
        lemma_zero_square(self.z as int);
    }

    /// Normalizing a normalized vector moves no component by more than one
    /// unit, and none toward zero: a normalized vector is a little short of
    /// unit length, never long.
    pub proof fn lemma_normalize_again(self)
        requires
            self.norm_squared() > 0,
        ensures
            self.normalize_spec().norm_squared() > 0,
            self.normalize_spec().x >= 0 ==> self.normalize_spec().x <= self.normalize_spec().normalize_spec().x <= self.normalize_spec().x + 1,
            self.normalize_spec().x <= 0 ==> self.normalize_spec().x - 1 <= self.normalize_spec().normalize_spec().x <= self.normalize_spec().x,
            self.normalize_spec().y >= 0 ==> self.normalize_spec().y <= self.normalize_spec().normalize_spec().y <= self.normalize_spec().y + 1,
            self.normalize_spec().y <= 0 ==> self.normalize_spec().y - 1 <= self.normalize_spec().normalize_spec().y <= self.normalize_spec().y,
            self.normalize_spec().z >= 0 ==> self.normalize_spec().z <= self.normalize_spec().normalize_spec().z <= self.normalize_spec().z + 1,
            self.normalize_spec().z <= 0 ==> self.normalize_spec().z - 1 <= self.normalize_spec().normalize_spec().z <= self.normalize_spec().z,
    {
        let n = self.norm_squared() as int;
        let unit = self.normalize_spec();
        self.lemma_normalize_accurate();
        self.lemma_normalize_unit();
        self.lemma_components_below_norm();
        lemma_unit_magnitude(self.x as int, n);
        lemma_unit_magnitude(self.y as int, n);
        lemma_unit_magnitude(self.z as int, n);
        let mx = unit_magnitude(self.x as int, n) as int;
        let my = unit_magnitude(self.y as int, n) as int;
        let mz = unit_magnitude(self.z as int, n) as int;
        let t = unit.norm_squared() as int;
        assert(t == mx * mx + my * my + mz * mz) by {
            assert(unit.x * unit.x == mx * mx) by (nonlinear_arith)
                requires
                    unit.x == mx || unit.x == -mx,
            ;
            assert(unit.y * unit.y == my * my) by (nonlinear_arith)
                requires
                    unit.y == my || unit.y == -my,
            ;
            assert(unit.z * unit.z == mz * mz) by (nonlinear_arith)
                requires
                    unit.z == mz || unit.z == -mz,
            ;
        }
        unit.lemma_normalize_accurate();
        assert((my + mz) * (my + mz) <= 2 * (my * my + mz * mz)) by (nonlinear_arith);
        lemma_unit_magnitude_again(mx, my + mz, t);
        assert(unit.x * unit.x == mx * mx) by (nonlinear_arith)
            requires
                unit.x == mx || unit.x == -mx,
        ;
        assert(unit_magnitude(unit.x as int, t) == unit_magnitude(mx, t));
        lemma_unit_magnitude(unit.x as int, t);
        assert((mx + mz) * (mx + mz) <= 2 * (mx * mx + mz * mz)) by (nonlinear_arith);
        lemma_unit_magnitude_again(my, mx + mz, t);
        assert(unit.y * unit.y == my * my) by (nonlinear_arith)
            requires
                unit.y == my || unit.y == -my,
        ;
        assert(unit_magnitude(unit.y as int, t) == unit_magnitude(my, t));
        lemma_unit_magnitude(unit.y as int, t);
        assert((mx + my) * (mx + my) <= 2 * (mx * mx + my * my)) by (nonlinear_arith);
        lemma_unit_magnitude_again(mz, mx + my, t);
        assert(unit.z * unit.z == mz * mz) by (nonlinear_arith)
            requires
                unit.z == mz || unit.z == -mz,
        ;
        assert(unit_magnitude(unit.z as int, t) == unit_magnitude(mz, t));
        lemma_unit_magnitude(unit.z as int, t);
    }

    /// No component of a normalized vector exceeds `ONE` in magnitude.
    pub proof fn lemma_normalize_bounds(self)
        requires
            self.norm_squared() > 0,
        ensures
            -ONE <= self.normalize_spec().x <= ONE,
            -ONE <= self.normalize_spec().y <= ONE,
            -ONE <= self.normalize_spec().z <= ONE,
    {
        self.lemma_normalize_accurate();
    }
}

/// `a + b` is the componentwise sum. It is defined where no component
/// overflows (`add_req`), and is then `add_spec`.
impl core::ops::Add for Vec3f {
    type Output = Vec3f;

    fn add(self, v: Vec3f) -> (r: Vec3f) {
        Vec3f { x: self.x + v.x, y: self.y + v.y, z: self.z + v.z }
    }
}

impl vstd::std_specs::ops::AddSpecImpl for Vec3f {
    open spec fn obeys_add_spec() -> bool {
        true
    }

    open spec fn add_req(self, v: Vec3f) -> bool {
        &&& i64::MIN <= self.x + v.x <= i64::MAX
        &&& i64::MIN <= self.y + v.y <= i64::MAX
        &&& i64::MIN <= self.z + v.z <= i64::MAX
    }

    open spec fn add_spec(self, v: Vec3f) -> Vec3f {
        Vec3f { x: (self.x + v.x) as i64, y: (self.y + v.y) as i64, z: (self.z + v.z) as i64 }
    }
}

/// `a - b` is the componentwise difference. It is defined where no
/// component overflows (`sub_req`), and is then `sub_spec`.
impl core::ops::Sub for Vec3f {
    type Output = Vec3f;

    fn sub(self, v: Vec3f) -> (r: Vec3f) {
        Vec3f { x: self.x - v.x, y: self.y - v.y, z: self.z - v.z }
    }
}

impl vstd::std_specs::ops::SubSpecImpl for Vec3f {
    open spec fn obeys_sub_spec() -> bool {
        true
    }

    open spec fn sub_req(self, v: Vec3f) -> bool {
        &&& i64::MIN <= self.x - v.x <= i64::MAX
        &&& i64::MIN <= self.y - v.y <= i64::MAX
        &&& i64::MIN <= self.z - v.z <= i64::MAX
    }

    open spec fn sub_spec(self, v: Vec3f) -> Vec3f {
        Vec3f { x: (self.x - v.x) as i64, y: (self.y - v.y) as i64, z: (self.z - v.z) as i64 }
    }
}

} // verus!
