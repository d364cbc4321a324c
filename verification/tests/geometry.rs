use soft_render::barycentric::{barycentric, Weights};
use soft_render::fixed::{HALF, ONE};
use soft_render::lighting::light_intensity;
use soft_render::projector::{project, project_triangle};
use soft_render::triangle::Triangle;
use soft_render::vec2f::Vec2f;
use soft_render::vec3f::Vec3f;

fn px(x: i64, y: i64) -> Vec2f {
    Vec2f::new(x * ONE, y * ONE)
}

fn flat_triangle(a: (i64, i64), b: (i64, i64), c: (i64, i64)) -> Triangle {
    Triangle {
        vertices: [
            Vec3f::new(a.0, a.1, 0),
            Vec3f::new(b.0, b.1, 0),
            Vec3f::new(c.0, c.1, 0),
        ],
        uv: [Vec3f::new_zero(); 3],
    }
}

#[test]
fn weights_at_the_corners_are_unit_vectors() {
    let tri = [px(10, 10), px(100, 10), px(55, 90)];
    let w0 = barycentric(&tri, tri[0]);
    let w1 = barycentric(&tri, tri[1]);
    let w2 = barycentric(&tri, tri[2]);
    assert!(w0.den > 0);
    assert_eq!((w0.w0, w0.w1, w0.w2), (w0.den, 0, 0));
    assert_eq!((w1.w0, w1.w1, w1.w2), (0, w1.den, 0));
    assert_eq!((w2.w0, w2.w1, w2.w2), (0, 0, w2.den));
}

#[test]
fn weights_of_an_inner_point_are_exact() {
    let tri = [px(0, 0), px(4, 0), px(0, 4)];
    let w = barycentric(&tri, px(1, 1));
    let unit = ONE * ONE;
    assert_eq!(w, Weights { w0: 8 * unit, w1: 4 * unit, w2: 4 * unit, den: 16 * unit });
    assert!(w.is_inside());
    assert_eq!(w.w0 + w.w1 + w.w2, w.den);
}

#[test]
fn weights_do_not_depend_on_orientation() {
    let tri = [px(0, 0), px(0, 4), px(4, 0)];
    let w = barycentric(&tri, px(1, 2));
    let unit = ONE * ONE;
    assert_eq!(w, Weights { w0: 4 * unit, w1: 8 * unit, w2: 4 * unit, den: 16 * unit });
}

#[test]
fn a_point_outside_has_a_negative_weight() {
    let tri = [px(10, 10), px(100, 10), px(55, 90)];
    for p in [px(5, 5), px(101, 10), px(55, 91), px(0, 50), px(200, 200), px(55, 9)] {
        let w = barycentric(&tri, p);
        assert!(!w.is_inside());
        assert!(w.w0 < 0 || w.w1 < 0 || w.w2 < 0);
        assert_eq!(w.w0 + w.w1 + w.w2, w.den);
    }
}

#[test]
fn a_point_just_outside_an_edge_has_a_negative_weight() {
    let tri = [px(0, 0), px(4, 0), px(0, 4)];
    let w = barycentric(&tri, Vec2f::new(ONE, -1));
    assert!(w.w2 < 0);
    let on_edge = barycentric(&tri, Vec2f::new(ONE, 0));
    assert!(on_edge.is_inside());
    assert_eq!(on_edge.w2, 0);
}

#[test]
fn a_degenerate_triangle_yields_the_sentinel() {
    let sentinel = Weights { w0: -1, w1: 1, w2: 1, den: 1 };
    let line = [px(0, 0), px(5, 5), px(10, 10)];
    assert_eq!(barycentric(&line, px(5, 5)), sentinel);
    let point = [px(3, 3), px(3, 3), px(3, 3)];
    assert_eq!(barycentric(&point, px(3, 3)), sentinel);
    let sliver = [px(0, 0), Vec2f::new(ONE - 1, 0), Vec2f::new(0, ONE)];
    assert_eq!(barycentric(&sliver, Vec2f::new(1, 1)), sentinel);
    assert!(!sentinel.is_inside());
}

#[test]
fn a_triangle_of_one_pixel_area_is_not_degenerate() {
    let tri = [px(0, 0), px(0, 1), px(1, 0)];
    let w = barycentric(&tri, Vec2f::new(HALF / 2, HALF / 2));
    assert_eq!(w.den, ONE * ONE);
    assert!(w.is_inside());
}

#[test]
fn interpolation_is_the_weighted_mean_rounded_down() {
    let w = Weights { w0: 1, w1: 1, w2: 2, den: 4 };
    assert_eq!(w.interpolate(10, 20, 30), 22);
    assert_eq!(w.interpolate(-10, -20, -30), -23);
    assert_eq!(w.interpolate(7, 7, 7), 7);
    let corner = Weights { w0: 0, w1: 5, w2: 0, den: 5 };
    assert_eq!(corner.interpolate(1, i64::MIN, 3), i64::MIN);
    assert_eq!(corner.interpolate(1, i64::MAX, 3), i64::MAX);
}

#[test]
fn projection_maps_the_unit_square_onto_the_raster() {
    assert_eq!(project(Vec3f::new(-ONE, -ONE, 0), 600, 600), Vec2f::new(0, 0));
    assert_eq!(project(Vec3f::new(ONE, ONE, 0), 600, 600), Vec2f::new(600 * ONE, 600 * ONE));
    assert_eq!(project(Vec3f::new(0, 0, 5 * ONE), 600, 400), Vec2f::new(300 * ONE, 200 * ONE));
}

#[test]
fn projection_leaves_far_points_outside_the_raster() {
    let p = project(Vec3f::new(-3 * ONE, 2 * ONE, 0), 600, 600);
    assert_eq!(p, Vec2f::new(-600 * ONE, 900 * ONE));
}

#[test]
fn projection_rounds_down() {
    assert_eq!(project(Vec3f::new(-ONE + 1, -ONE - 1, 0), 3, 3), Vec2f::new(1, -2));
}

#[test]
fn projection_of_a_triangle_projects_each_corner() {
    let tri = flat_triangle((-ONE, -ONE), (ONE, -ONE), (0, ONE));
    let screen = project_triangle(&tri, 600, 600);
    assert_eq!(screen, [px(0, 0), px(600, 0), px(300, 600)]);
}

#[test]
fn normal_follows_the_winding_order() {
    let tri = flat_triangle((0, 0), (ONE, 0), (0, ONE));
    assert_eq!(tri.normal(), Vec3f::new(0, 0, -ONE));
    let flipped = flat_triangle((0, 0), (0, ONE), (ONE, 0));
    assert_eq!(flipped.normal(), Vec3f::new(0, 0, ONE));
}

#[test]
fn normal_of_a_triangle_without_area_is_zero() {
    let tri = flat_triangle((0, 0), (ONE, ONE), (2 * ONE, 2 * ONE));
    assert_eq!(tri.normal(), Vec3f::new_zero());
}

#[test]
fn normal_of_a_tilted_triangle() {
    let tri = Triangle {
        vertices: [Vec3f::new(0, 0, 0), Vec3f::new(0, ONE, 0), Vec3f::new(ONE, 0, ONE)],
        uv: [Vec3f::new_zero(); 3],
    };
    assert_eq!(tri.normal(), Vec3f::new(-46340, 0, 46340));
}

#[test]
fn light_intensity_is_the_clamped_scalar_product() {
    let facing = flat_triangle((0, 0), (0, ONE), (ONE, 0));
    assert_eq!(light_intensity(&facing, &Vec3f::new(0, 0, ONE)), ONE);
    assert_eq!(light_intensity(&facing, &Vec3f::new(0, 0, HALF)), HALF);
    assert_eq!(light_intensity(&facing, &Vec3f::new(ONE, 0, 0)), 0);
    assert_eq!(light_intensity(&facing, &Vec3f::new(0, 0, 3 * ONE)), ONE);
}

#[test]
fn a_face_turned_away_from_the_light_is_unlit() {
    let facing = flat_triangle((0, 0), (0, ONE), (ONE, 0));
    assert_eq!(light_intensity(&facing, &Vec3f::new(0, 0, -58982)), 0);
    assert_eq!(light_intensity(&facing, &Vec3f::new(0, 0, -6554)), 0);
    assert_eq!(light_intensity(&facing, &Vec3f::new(0, 0, -1)), 0);
}

#[test]
fn normal_of_a_small_triangle_is_a_unit_vector() {
    let tri = Triangle {
        vertices: [Vec3f::new(0, 0, 0), Vec3f::new(2, 1, 3), Vec3f::new(1, 2, 0)],
        uv: [Vec3f::new_zero(); 3],
    };
    let n = tri.normal();
    assert_eq!(n, Vec3f::new(53509, -26754, -26754));
    let length = n.x * n.x + n.y * n.y + n.z * n.z;
    assert!(ONE * ONE - 7 * ONE <= length && length <= ONE * ONE);
}

#[test]
fn light_intensity_of_a_small_tilted_triangle() {
    let tri = Triangle {
        vertices: [Vec3f::new(0, 0, 0), Vec3f::new(0, 1, 0), Vec3f::new(1, 0, 1)],
        uv: [Vec3f::new_zero(); 3],
    };
    assert_eq!(tri.normal(), Vec3f::new(-46340, 0, 46340));
    assert_eq!(light_intensity(&tri, &Vec3f::new(0, 0, ONE)), 46340);
    assert_eq!(light_intensity(&tri, &Vec3f::new(-46341, 0, 46341)), 65534);
}
