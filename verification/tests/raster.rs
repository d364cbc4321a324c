use soft_render::fixed::{HALF, MAX_DIM, ONE};
use soft_render::frame::{Canvas, DepthBuffer};
use soft_render::raster::{bounding_box, triangle, BoundingBox};
use soft_render::shader::{Color, PixelShader, ShaderFlat, ShaderUV};
use soft_render::triangle::Triangle;
use soft_render::vec2f::Vec2f;
use soft_render::vec3f::Vec3f;

const BLACK: Color = Color { r: 0, g: 0, b: 0 };
const WHITE: Color = Color { r: 255, g: 255, b: 255 };

fn px(x: i64, y: i64) -> Vec2f {
    Vec2f::new(x * ONE, y * ONE)
}

fn at_depth(z: i64) -> Triangle {
    Triangle { vertices: [Vec3f::new(0, 0, z); 3], uv: [Vec3f::new_zero(); 3] }
}

fn frame(width: usize, height: usize) -> (Canvas, DepthBuffer) {
    (Canvas::new(width, height, BLACK).unwrap(), DepthBuffer::new(width, height).unwrap())
}

/// Whether the centre of pixel `(x, y)` lies in the triangle, by the signs of
/// the three edge functions in doubled pixel coordinates.
fn centre_inside(corners: [(i64, i64); 3], x: i64, y: i64) -> bool {
    let p = (2 * x + 1, 2 * y + 1);
    let edge = |a: (i64, i64), b: (i64, i64)| {
        (2 * b.0 - 2 * a.0) * (p.1 - 2 * a.1) - (2 * b.1 - 2 * a.1) * (p.0 - 2 * a.0)
    };
    let e = [
        edge(corners[0], corners[1]),
        edge(corners[1], corners[2]),
        edge(corners[2], corners[0]),
    ];
    e.iter().all(|v| *v >= 0) || e.iter().all(|v| *v <= 0)
}

fn snapshot(canvas: &Canvas, zbuffer: &DepthBuffer) -> (Vec<Color>, Vec<Option<i64>>) {
    let mut colors = Vec::new();
    let mut depths = Vec::new();
    for y in 0..canvas.height() {
        for x in 0..canvas.width() {
            colors.push(canvas.pixel(x, y));
            depths.push(zbuffer.get(y * canvas.width() + x));
        }
    }
    (colors, depths)
}

#[test]
fn a_lone_triangle_fills_its_inside_and_nothing_else() {
    let corners = [(10, 10), (100, 10), (55, 90)];
    let tri_screen = [px(10, 10), px(100, 10), px(55, 90)];
    let (mut canvas, mut zbuffer) = frame(120, 100);
    let shader = PixelShader::Flat(ShaderFlat {});
    triangle(&mut canvas, &at_depth(0), &tri_screen, &shader, ONE, &mut zbuffer);
    let mut lit = 0;
    for y in 0..100 {
        for x in 0..120 {
            let inside = centre_inside(corners, x as i64, y as i64);
            assert_eq!(canvas.pixel(x, y), if inside { WHITE } else { BLACK });
            assert_eq!(zbuffer.get(y * 120 + x), if inside { Some(0) } else { None });
            if inside {
                lit += 1;
            }
        }
    }
    assert_eq!(canvas.pixel(5, 5), BLACK);
    assert_eq!(canvas.pixel(55, 50), WHITE);
    assert_eq!(lit, 3600);
}

#[test]
fn drawing_a_triangle_twice_changes_nothing() {
    let tri_screen = [px(2, 3), px(30, 5), px(12, 28)];
    let tri = Triangle {
        vertices: [Vec3f::new(0, 0, -ONE), Vec3f::new(0, 0, ONE), Vec3f::new(0, 0, 7)],
        uv: [Vec3f::new(0, 0, 0), Vec3f::new(ONE, 0, 0), Vec3f::new(0, ONE, 0)],
    };
    let (mut canvas, mut zbuffer) = frame(32, 32);
    let shader = PixelShader::UV(ShaderUV {});
    triangle(&mut canvas, &tri, &tri_screen, &shader, ONE, &mut zbuffer);
    let once = snapshot(&canvas, &zbuffer);
    assert!(once.1.iter().any(|d| d.is_some()));
    triangle(&mut canvas, &tri, &tri_screen, &shader, ONE, &mut zbuffer);
    assert_eq!(snapshot(&canvas, &zbuffer), once);
    // not even in another colour
    triangle(&mut canvas, &tri, &tri_screen, &shader, HALF, &mut zbuffer);
    assert_eq!(snapshot(&canvas, &zbuffer), once);
}

#[test]
fn the_closer_triangle_wins_in_either_order() {
    let a_screen = [px(0, 0), px(20, 0), px(0, 20)];
    let b_screen = [px(2, 2), px(18, 2), px(2, 18)];
    let a = at_depth(13107);
    let b = at_depth(52428);
    let shader = PixelShader::Flat(ShaderFlat {});
    let grey = Color { r: 127, g: 127, b: 127 };

    let (mut canvas, mut zbuffer) = frame(24, 24);
    triangle(&mut canvas, &a, &a_screen, &shader, ONE, &mut zbuffer);
    triangle(&mut canvas, &b, &b_screen, &shader, HALF, &mut zbuffer);
    let a_then_b = snapshot(&canvas, &zbuffer);

    let (mut canvas, mut zbuffer) = frame(24, 24);
    triangle(&mut canvas, &b, &b_screen, &shader, HALF, &mut zbuffer);
    triangle(&mut canvas, &a, &a_screen, &shader, ONE, &mut zbuffer);
    let b_then_a = snapshot(&canvas, &zbuffer);

    assert_eq!(a_then_b, b_then_a);
    // in the overlap
    assert_eq!(canvas.pixel(5, 5), grey);
    assert_eq!(zbuffer.get(5 * 24 + 5), Some(52428));
    // where only the farther one is
    assert_eq!(canvas.pixel(0, 0), WHITE);
    assert_eq!(zbuffer.get(0), Some(13107));
    // where neither is
    assert_eq!(canvas.pixel(23, 23), BLACK);
    assert_eq!(zbuffer.get(23 * 24 + 23), None);
}

#[test]
fn a_sample_at_equal_depth_does_not_replace_the_first() {
    let tri_screen = [px(0, 0), px(8, 0), px(0, 8)];
    let shader = PixelShader::Flat(ShaderFlat {});
    let (mut canvas, mut zbuffer) = frame(8, 8);
    triangle(&mut canvas, &at_depth(5), &tri_screen, &shader, ONE, &mut zbuffer);
    triangle(&mut canvas, &at_depth(5), &tri_screen, &shader, 0, &mut zbuffer);
    assert_eq!(canvas.pixel(1, 1), WHITE);
    triangle(&mut canvas, &at_depth(6), &tri_screen, &shader, 0, &mut zbuffer);
    assert_eq!(canvas.pixel(1, 1), BLACK);
    assert_eq!(zbuffer.get(8 + 1), Some(6));
}

#[test]
fn depth_and_texture_coordinates_are_interpolated() {
    let tri_screen = [px(0, 0), px(4, 0), px(0, 4)];
    let tri = Triangle {
        vertices: [Vec3f::new(0, 0, 0), Vec3f::new(0, 0, 4000), Vec3f::new(0, 0, -8000)],
        uv: [Vec3f::new(0, 0, 0), Vec3f::new(ONE, 0, 0), Vec3f::new(0, ONE, 0)],
    };
    let (mut canvas, mut zbuffer) = frame(4, 4);
    let shader = PixelShader::UV(ShaderUV {});
    triangle(&mut canvas, &tri, &tri_screen, &shader, ONE, &mut zbuffer);
    // the centre of pixel (1, 2) has the weights 0, 3/8 and 5/8
    assert_eq!(zbuffer.get(2 * 4 + 1), Some(4000 * 3 / 8 - 8000 * 5 / 8));
    assert_eq!(canvas.pixel(1, 2), Color { r: 95, g: 159, b: 255 });
    assert_eq!(zbuffer.get(0), Some(-500));
    assert_eq!(canvas.pixel(0, 0), Color { r: 31, g: 31, b: 255 });
    // the centre of pixel (3, 3) lies beyond the long edge
    assert_eq!(zbuffer.get(3 * 4 + 3), None);
    assert_eq!(canvas.pixel(3, 3), BLACK);
}

#[test]
fn a_degenerate_triangle_draws_nothing() {
    let (mut canvas, mut zbuffer) = frame(16, 16);
    let shader = PixelShader::Flat(ShaderFlat {});
    let blank = snapshot(&canvas, &zbuffer);
    let line = [px(0, 0), px(8, 8), px(15, 15)];
    triangle(&mut canvas, &at_depth(0), &line, &shader, ONE, &mut zbuffer);
    let sliver = [px(3, 3), Vec2f::new(3 * ONE + HALF, 3 * ONE), Vec2f::new(3 * ONE, 4 * ONE)];
    triangle(&mut canvas, &at_depth(0), &sliver, &shader, ONE, &mut zbuffer);
    assert_eq!(snapshot(&canvas, &zbuffer), blank);
}

#[test]
fn a_triangle_off_the_raster_draws_nothing() {
    let (mut canvas, mut zbuffer) = frame(16, 16);
    let shader = PixelShader::Flat(ShaderFlat {});
    let blank = snapshot(&canvas, &zbuffer);
    for tri_screen in [
        [px(-30, 0), px(-10, 0), px(-20, 10)],
        [px(16, 0), px(40, 0), px(16, 40)],
        [px(0, -9), px(9, -9), px(0, -1)],
        [px(0, 100), px(9, 100), px(0, 200)],
    ] {
        triangle(&mut canvas, &at_depth(0), &tri_screen, &shader, ONE, &mut zbuffer);
    }
    assert_eq!(snapshot(&canvas, &zbuffer), blank);
}

#[test]
fn a_triangle_larger_than_the_raster_fills_it() {
    let (mut canvas, mut zbuffer) = frame(6, 5);
    let shader = PixelShader::Flat(ShaderFlat {});
    let tri_screen = [px(-100, -100), px(300, -100), px(-100, 300)];
    triangle(&mut canvas, &at_depth(9), &tri_screen, &shader, ONE, &mut zbuffer);
    let (colors, depths) = snapshot(&canvas, &zbuffer);
    assert!(colors.iter().all(|c| *c == WHITE));
    assert!(depths.iter().all(|d| *d == Some(9)));
    assert_eq!(colors.len(), 30);
}

#[test]
fn an_empty_raster_is_left_empty() {
    let (mut canvas, mut zbuffer) = frame(0, 7);
    let shader = PixelShader::Flat(ShaderFlat {});
    let tri_screen = [px(0, 0), px(4, 0), px(0, 4)];
    triangle(&mut canvas, &at_depth(0), &tri_screen, &shader, ONE, &mut zbuffer);
    assert_eq!(canvas.width(), 0);
    assert_eq!(canvas.height(), 7);
}

#[test]
fn bounding_box_is_clamped_to_the_raster() {
    let tri_screen = [px(0, 0), px(600, 600), px(600, 0)];
    assert_eq!(
        bounding_box(&tri_screen, 600, 600),
        Some(BoundingBox { x_min: 0, x_max: 599, y_min: 0, y_max: 599 })
    );
    let beyond = [px(-50, 700), px(900, -20), px(10, 10)];
    assert_eq!(
        bounding_box(&beyond, 600, 400),
        Some(BoundingBox { x_min: 0, x_max: 599, y_min: 0, y_max: 399 })
    );
}

#[test]
fn bounding_box_takes_whole_pixels() {
    let tri_screen = [
        Vec2f::new(10 * ONE + 19661, 20 * ONE),
        Vec2f::new(30 * ONE + HALF, 25 * ONE + 1),
        Vec2f::new(12 * ONE, 40 * ONE - 1),
    ];
    assert_eq!(
        bounding_box(&tri_screen, 600, 600),
        Some(BoundingBox { x_min: 10, x_max: 30, y_min: 20, y_max: 39 })
    );
}

#[test]
fn bounding_box_of_a_triangle_off_the_raster_is_empty() {
    assert_eq!(bounding_box(&[px(-9, 0), px(-1, 0), px(-5, 5)], 600, 600), None);
    assert_eq!(bounding_box(&[px(600, 0), px(700, 0), px(650, 5)], 600, 600), None);
    assert_eq!(bounding_box(&[px(0, 600), px(7, 600), px(5, 900)], 600, 600), None);
    assert_eq!(bounding_box(&[px(0, 0), px(7, 0), px(5, 9)], 0, 0), None);
    assert_eq!(
        bounding_box(&[Vec2f::new(-1, 0), Vec2f::new(-1, 5), Vec2f::new(-ONE, 3)], 600, 600),
        None
    );
}

#[test]
fn bounding_box_accepts_any_coordinates() {
    let wide = [
        Vec2f::new(i64::MIN, i64::MIN),
        Vec2f::new(i64::MAX, i64::MAX),
        Vec2f::new(0, 0),
    ];
    assert_eq!(
        bounding_box(&wide, MAX_DIM, MAX_DIM),
        Some(BoundingBox { x_min: 0, x_max: 8191, y_min: 0, y_max: 8191 })
    );
    let last = (i64::MAX / ONE) as usize;
    assert_eq!(
        bounding_box(&wide, usize::MAX, 1),
        Some(BoundingBox { x_min: 0, x_max: last, y_min: 0, y_max: 0 })
    );
}
