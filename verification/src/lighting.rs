//! How strongly a triangle is lit.
use vstd::prelude::*;
use crate::fixed::{clamp, lemma_zero_square, COORD_LIMIT, ONE};
use crate::triangle::Triangle;
use crate::vec3f::Vec3f;

verus! {

/// The light intensity of a face with unit normal `normal` under light from
/// `light_dir`: their scalar product, kept between zero and `ONE`. A face
/// turned away from the light is unlit.
pub open spec fn intensity_spec(normal: Vec3f, light_dir: Vec3f) -> int {
    clamp(normal.dot_spec(light_dir) / (ONE as int), 0, ONE as int)
}

/// The light intensity of a triangle under light from `light_dir`, which is
/// taken to be a unit vector.
pub fn light_intensity(tri: &Triangle, light_dir: &Vec3f) -> (intensity: i64)
    requires
        tri.in_range(),
        light_dir.in_range(),
    ensures
        intensity == intensity_spec(tri.normal_spec(), *light_dir),
        0 <= intensity <= ONE,
        tri.normal_spec().dot_spec(*light_dir) < 0 ==> intensity == 0,
{
    let normal = tri.normal();
    proof {
        let cross = tri.edge_cross();
        cross.lemma_components_below_norm();
        if cross.norm_squared() > 0 {
            cross.lemma_normalize_bounds();
        } else {
            lemma_zero_square(cross.x as int);
            lemma_zero_square(cross.y as int);
            lemma_zero_square(cross.z as int);
        }
        lemma_component_product(normal.x as int, light_dir.x as int);
        lemma_component_product(normal.y as int, light_dir.y as int);
        lemma_component_product(normal.z as int, light_dir.z as int);
    }
    let raw = normal.dot(light_dir);
    let mut light_intensity = if raw % ONE < 0 {
        raw / ONE - 1
    } else {
        raw / ONE
    };
    light_intensity = if light_intensity < 0 { 0 } else { light_intensity };
    light_intensity = if light_intensity > ONE { ONE } else { light_intensity };
    light_intensity
}

/// The product of a component of a unit normal and a component of a light
/// direction is small enough for three of them to be summed in 64 bits.
proof fn lemma_component_product(n: int, l: int)
    requires
        -ONE <= n <= ONE,
        -COORD_LIMIT <= l <= COORD_LIMIT,
    ensures
        -0x2000_0000_0000 <= n * l <= 0x2000_0000_0000,
{
    assert(-0x2000_0000_0000 <= n * l <= 0x2000_0000_0000) by (nonlinear_arith)
        requires
            -65536 <= n <= 65536,
            -536870912 <= l <= 536870912,
    ;
}

} // verus!
