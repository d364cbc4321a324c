use soft_render::fixed::{MAX_DIM, ONE};
use soft_render::frame::{Canvas, DepthBuffer};
use soft_render::render::{draw_triangle, render_frame};
use soft_render::shader::{Color, PixelShader, ShaderFlat};
use soft_render::triangle::Triangle;
use soft_render::vec3f::Vec3f;

const BLACK: Color = Color { r: 0, g: 0, b: 0 };
const WHITE: Color = Color { r: 255, g: 255, b: 255 };
const RED: Color = Color { r: 200, g: 0, b: 0 };

fn painted(canvas: &Canvas, color: Color) -> Vec<(usize, usize)> {
    let mut found = Vec::new();
    for y in 0..canvas.height() {
        for x in 0..canvas.width() {
            if canvas.pixel(x, y) == color {
                found.push((x, y));
            }
        }
    }
    found
}

/// A triangle over the lower left half of the unit square that faces the
/// positive z axis.
fn facing(z: i64) -> Triangle {
    Triangle {
        vertices: [Vec3f::new(-ONE, -ONE, z), Vec3f::new(-ONE, ONE, z), Vec3f::new(ONE, -ONE, z)],
        uv: [Vec3f::new_zero(); 3],
    }
}

#[test]
fn a_new_depth_buffer_is_empty() {
    let zbuffer = DepthBuffer::new(3, 2).unwrap();
    assert_eq!((zbuffer.width(), zbuffer.height()), (3, 2));
    for i in 0..6 {
        assert_eq!(zbuffer.get(i), None);
    }
}

#[test]
fn rasters_are_limited_in_size() {
    assert!(DepthBuffer::new(MAX_DIM + 1, 1).is_none());
    assert!(DepthBuffer::new(1, MAX_DIM + 1).is_none());
    assert!(DepthBuffer::new(MAX_DIM, 1).is_some());
    assert!(Canvas::new(MAX_DIM + 1, 1, BLACK).is_none());
    assert!(Canvas::new(1, MAX_DIM + 1, BLACK).is_none());
    assert!(Canvas::new(1, MAX_DIM, BLACK).is_some());
    assert!(Canvas::new(0, 0, BLACK).is_some());
}

#[test]
fn the_depth_test_lets_the_greater_depth_pass() {
    let mut zbuffer = DepthBuffer::new(2, 2).unwrap();
    assert!(zbuffer.test_and_update(1, -5));
    assert_eq!(zbuffer.get(1), Some(-5));
    assert!(!zbuffer.test_and_update(1, -5));
    assert!(!zbuffer.test_and_update(1, -6));
    assert_eq!(zbuffer.get(1), Some(-5));
    assert!(zbuffer.test_and_update(1, -4));
    assert_eq!(zbuffer.get(1), Some(-4));
    assert_eq!(zbuffer.get(0), None);
    assert_eq!(zbuffer.get(2), None);
}

#[test]
fn the_depth_test_accepts_the_least_depth_on_an_empty_cell() {
    let mut zbuffer = DepthBuffer::new(1, 1).unwrap();
    assert!(zbuffer.test_and_update(0, i64::MIN));
    assert!(!zbuffer.test_and_update(0, i64::MIN));
    assert!(zbuffer.test_and_update(0, i64::MAX));
    assert_eq!(zbuffer.get(0), Some(i64::MAX));
}

#[test]
fn reset_empties_the_depth_buffer() {
    let mut zbuffer = DepthBuffer::new(2, 2).unwrap();
    zbuffer.test_and_update(0, 1);
    zbuffer.test_and_update(3, 2);
    zbuffer.reset();
    for i in 0..4 {
        assert_eq!(zbuffer.get(i), None);
    }
    assert_eq!((zbuffer.width(), zbuffer.height()), (2, 2));
}

#[test]
fn canvas_pixels_are_addressed_by_column_and_row() {
    let mut canvas = Canvas::new(3, 2, BLACK).unwrap();
    canvas.set_pixel(2, 0, WHITE);
    canvas.set(3, RED);
    assert_eq!(canvas.pixel(2, 0), WHITE);
    assert_eq!(canvas.pixel(0, 1), RED);
    assert_eq!(painted(&canvas, BLACK), vec![(0, 0), (1, 0), (1, 1), (2, 1)]);
    canvas.clear(RED);
    assert_eq!(painted(&canvas, RED).len(), 6);
    assert_eq!((canvas.width(), canvas.height()), (3, 2));
}

#[test]
fn a_line_leaves_out_its_far_end() {
    let mut canvas = Canvas::new(8, 8, BLACK).unwrap();
    soft_render::line::line(&mut canvas, 0, 0, 5, 0, WHITE);
    assert_eq!(painted(&canvas, WHITE), vec![(0, 0), (1, 0), (2, 0), (3, 0), (4, 0)]);
}

#[test]
fn a_line_is_the_same_from_either_end() {
    let mut forward = Canvas::new(8, 8, BLACK).unwrap();
    soft_render::line::line(&mut forward, 0, 0, 4, 2, WHITE);
    assert_eq!(painted(&forward, WHITE), vec![(0, 0), (1, 0), (2, 1), (3, 1)]);
    let mut backward = Canvas::new(8, 8, BLACK).unwrap();
    soft_render::line::line(&mut backward, 4, 2, 0, 0, WHITE);
    assert_eq!(painted(&backward, WHITE), painted(&forward, WHITE));
}

#[test]
fn a_steep_line_steps_along_the_rows() {
    let mut canvas = Canvas::new(8, 8, BLACK).unwrap();
    soft_render::line::line(&mut canvas, 0, 0, 2, 4, WHITE);
    assert_eq!(painted(&canvas, WHITE), vec![(0, 0), (0, 1), (1, 2), (1, 3)]);
}

#[test]
fn a_falling_line() {
    let mut canvas = Canvas::new(8, 8, BLACK).unwrap();
    soft_render::line::line(&mut canvas, 0, 3, 3, 0, WHITE);
    assert_eq!(painted(&canvas, WHITE), vec![(2, 1), (1, 2), (0, 3)]);
    let mut shallow = Canvas::new(8, 8, BLACK).unwrap();
    soft_render::line::line(&mut shallow, 0, 2, 6, 0, RED);
    assert_eq!(
        painted(&shallow, RED),
        vec![(4, 0), (5, 0), (1, 1), (2, 1), (3, 1), (0, 2)]
    );
}

#[test]
fn a_line_without_length_paints_nothing() {
    let mut canvas = Canvas::new(4, 4, BLACK).unwrap();
    soft_render::line::line(&mut canvas, 2, 2, 2, 2, WHITE);
    assert_eq!(painted(&canvas, WHITE), vec![]);
}

#[test]
fn a_line_is_clipped_to_the_canvas() {
    let mut canvas = Canvas::new(4, 4, BLACK).unwrap();
    soft_render::line::line(&mut canvas, -3, 1, 9, 1, WHITE);
    assert_eq!(painted(&canvas, WHITE), vec![(0, 1), (1, 1), (2, 1), (3, 1)]);
    soft_render::line::line(&mut canvas, i16::MIN, i16::MIN, i16::MAX, i16::MAX, RED);
    assert_eq!(painted(&canvas, RED), vec![(0, 0), (1, 1), (2, 2), (3, 3)]);
    soft_render::line::line(&mut canvas, -5, -5, -1, -9, RED);
    assert_eq!(painted(&canvas, RED).len(), 4);
}

#[test]
fn a_frame_shows_the_lit_mesh_on_the_background() {
    let mut canvas = Canvas::new(10, 10, RED).unwrap();
    let mut zbuffer = DepthBuffer::new(10, 10).unwrap();
    zbuffer.test_and_update(11, 1 << 40);
    let shader = PixelShader::Flat(ShaderFlat {});
    let light = Vec3f::new(0, 0, ONE);
    render_frame(&mut canvas, &mut zbuffer, &vec![facing(0)], &shader, &light, BLACK);
    assert_eq!(canvas.pixel(1, 1), WHITE);
    assert_eq!(zbuffer.get(11), Some(0));
    assert_eq!(canvas.pixel(9, 9), BLACK);
    assert_eq!(zbuffer.get(99), None);
    assert_eq!(painted(&canvas, WHITE).len(), 55);
    assert_eq!(painted(&canvas, BLACK).len(), 45);
}

#[test]
fn a_frame_under_light_from_behind_is_black() {
    let mut canvas = Canvas::new(10, 10, RED).unwrap();
    let mut zbuffer = DepthBuffer::new(10, 10).unwrap();
    let shader = PixelShader::Flat(ShaderFlat {});
    for light in [Vec3f::new(0, 0, -58982), Vec3f::new(0, 0, -6554)] {
        render_frame(&mut canvas, &mut zbuffer, &vec![facing(0)], &shader, &light, RED);
        assert_eq!(canvas.pixel(1, 1), BLACK);
        assert_eq!(painted(&canvas, BLACK).len(), 55);
        assert_eq!(painted(&canvas, RED).len(), 45);
    }
}

#[test]
fn a_frame_does_not_depend_on_the_order_of_the_mesh() {
    let shader = PixelShader::Flat(ShaderFlat {});
    let light = Vec3f::new(0, 0, ONE);
    let near = facing(ONE);
    let far = Triangle {
        vertices: [
            Vec3f::new(-ONE, -ONE, -ONE),
            Vec3f::new(ONE, -ONE, -ONE),
            Vec3f::new(-ONE, ONE, -ONE),
        ],
        uv: [Vec3f::new_zero(); 3],
    };
    let mut first = Canvas::new(10, 10, RED).unwrap();
    let mut second = Canvas::new(10, 10, RED).unwrap();
    let mut zbuffer = DepthBuffer::new(10, 10).unwrap();
    render_frame(&mut first, &mut zbuffer, &vec![near, far], &shader, &light, RED);
    render_frame(&mut second, &mut zbuffer, &vec![far, near], &shader, &light, RED);
    assert_eq!(first.pixel(1, 1), WHITE);
    assert_eq!(painted(&first, WHITE), painted(&second, WHITE));
    assert_eq!(painted(&first, BLACK), vec![]);
    assert_eq!(zbuffer.get(11), Some(ONE));
}

#[test]
fn a_triangle_beyond_the_coordinate_limit_is_passed_over() {
    let mut canvas = Canvas::new(10, 10, RED).unwrap();
    let mut zbuffer = DepthBuffer::new(10, 10).unwrap();
    let shader = PixelShader::Flat(ShaderFlat {});
    let light = Vec3f::new(0, 0, ONE);
    let mut far_out = facing(0);
    far_out.vertices[2].x = 8193 * ONE;
    assert!(!draw_triangle(&mut canvas, &mut zbuffer, &far_out, &shader, &light));
    let mut deep = facing(0);
    deep.vertices[0].z = -8193 * ONE;
    assert!(!draw_triangle(&mut canvas, &mut zbuffer, &deep, &shader, &light));
    // inside the limit itself, but not its projection
    let mut stretched = facing(0);
    stretched.vertices[2].x = 4000 * ONE;
    assert!(!draw_triangle(&mut canvas, &mut zbuffer, &stretched, &shader, &light));
    assert_eq!(painted(&canvas, RED).len(), 100);
    assert!(draw_triangle(&mut canvas, &mut zbuffer, &facing(0), &shader, &light));
    assert_eq!(painted(&canvas, WHITE).len(), 55);
}
