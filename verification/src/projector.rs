//! From world space to screen space.
use vstd::prelude::*;
use crate::fixed::{COORD_LIMIT, MAX_DIM, ONE};
use crate::triangle::Triangle;
use crate::vec2f::Vec2f;
use crate::vec3f::Vec3f;

verus! {

/// The screen coordinate of the world coordinate `c` along an axis of `size`
/// pixels: `(c + 1) * size / 2`, rounded down. `-1` lands on the first
/// pixel's edge, `1` on the far edge of the last.
pub open spec fn to_screen(c: int, size: int) -> int {
    ((c + ONE) * size) / 2
}

/// The screen position of a world-space point in a raster of the given size.
pub open spec fn project_spec(v: Vec3f, width: int, height: int) -> Vec2f {
    Vec2f { x: to_screen(v.x as int, width) as i64, y: to_screen(v.y as int, height) as i64 }
}

/// Inside the limits a screen coordinate fits 64 bits with room to spare.
pub proof fn lemma_to_screen_bounds(c: int, size: int)
    requires
        -COORD_LIMIT <= c <= COORD_LIMIT,
        0 <= size <= MAX_DIM,
    ensures
        -0x800_0000_0000 <= (c + ONE) * size <= 0x800_0000_0000,
        -0x800_0000_0000 <= to_screen(c, size) <= 0x800_0000_0000,
{
    assert(-0x800_0000_0000 <= (c + ONE) * size <= 0x800_0000_0000) by (nonlinear_arith)
        requires
            -536870912 <= c <= 536870912,
            0 <= size <= 8192,
            ONE == 65536,
    ;
}

/// Projects a world-space point to the screen: an orthographic mapping of
/// the square from `-1` to `1` onto the raster. Nothing is clipped; the depth
/// plays no part.
pub fn project(v: Vec3f, width: usize, height: usize) -> (p: Vec2f)
    requires
        v.in_range(),
        width <= MAX_DIM,
        height <= MAX_DIM,
    ensures
        p == project_spec(v, width as int, height as int),
        p.x == to_screen(v.x as int, width as int),
        p.y == to_screen(v.y as int, height as int),
{
    proof {
        lemma_to_screen_bounds(v.x as int, width as int);
        lemma_to_screen_bounds(v.y as int, height as int);
    }
    Vec2f::new(halve((v.x + ONE) * (width as i64)), halve((v.y + ONE) * (height as i64)))
}

/// Half of `a`, rounded down.
fn halve(a: i64) -> (h: i64)
    ensures
        h == a / 2,
{
    if a % 2 < 0 {
        a / 2 - 1
    } else {
        a / 2
    }
}

/// The screen-space triangle of a world-space triangle.
pub open spec fn project_triangle_spec(tri: Triangle, width: int, height: int) -> [Vec2f; 3] {
    [
        project_spec(tri.vertices[0], width, height),
        project_spec(tri.vertices[1], width, height),
        project_spec(tri.vertices[2], width, height),
    ]
}

/// Projects the three corners of a triangle.
pub fn project_triangle(tri: &Triangle, width: usize, height: usize) -> (tri_screen: [Vec2f; 3])
    requires
        tri.in_range(),
        width <= MAX_DIM,
        height <= MAX_DIM,
    ensures
        tri_screen == project_triangle_spec(*tri, width as int, height as int),
{
    [
        project(tri.vertices[0], width, height),
        project(tri.vertices[1], width, height),
        project(tri.vertices[2], width, height),
    ]
}

} // verus!
