//! The rasterizer: which pixels a triangle covers, at what depth, and in
//! what colour.
use vstd::prelude::*;
use crate::barycentric::{
    barycentric, corners_in_range, degenerate, interpolate_spec, lemma_weighted_mean,
    lemma_weights_exact, lemma_weights_locate, max3, min3, weights_spec, Weights,
};
use crate::fixed::{HALF, MAX_DIM, ONE};
use crate::frame::{cell_index, depth_test, lemma_cell_index, lemma_cell_pixel, lemma_raster_size, Canvas, DepthBuffer};
use crate::shader::{Color, PixelShader};
use crate::triangle::Triangle;
use crate::vec2f::Vec2f;

verus! {

/// A range of pixels, both ends included.
#[derive(Debug, Copy, Clone, PartialEq, Eq, Structural)]
pub struct BoundingBox {
    pub x_min: usize,
    pub x_max: usize,
    pub y_min: usize,
    pub y_max: usize,
}

/// The first pixel of a raster that a span starting at `lowest` reaches.
pub open spec fn first_pixel(lowest: int) -> int {
    if lowest / (ONE as int) < 0 {
        0
    } else {
        lowest / (ONE as int)
    }
}

/// The last pixel of a raster of `size` pixels that a span ending at
/// `highest` reaches; `-1` for an empty raster.
pub open spec fn last_pixel(highest: int, size: int) -> int {
    if highest / (ONE as int) > size - 1 {
        size - 1
    } else {
        highest / (ONE as int)
    }
}

/// Whether pixel `(x, y)` lies in the box.
pub open spec fn in_box(bbox: BoundingBox, x: int, y: int) -> bool {
    bbox.x_min <= x <= bbox.x_max && bbox.y_min <= y <= bbox.y_max
}

/// The pixels of a `width` by `height` raster that the axis-aligned box
/// around the three corners touches, or `None` where it touches none.
pub open spec fn bounding_box_spec(tri: [Vec2f; 3], width: int, height: int) -> Option<
    BoundingBox,
> {
    let x_min = first_pixel(min3(tri[0].x as int, tri[1].x as int, tri[2].x as int));
    let x_max = last_pixel(max3(tri[0].x as int, tri[1].x as int, tri[2].x as int), width);
    let y_min = first_pixel(min3(tri[0].y as int, tri[1].y as int, tri[2].y as int));
    let y_max = last_pixel(max3(tri[0].y as int, tri[1].y as int, tri[2].y as int), height);
    if x_min <= x_max && y_min <= y_max {
        Some(
            BoundingBox {
                x_min: x_min as usize,
                x_max: x_max as usize,
                y_min: y_min as usize,
                y_max: y_max as usize,
            },
        )
    } else {
        None
    }
}

/// The centre of pixel `(x, y)`.
pub open spec fn pixel_center(x: int, y: int) -> Vec2f {
    Vec2f { x: (x * ONE + HALF) as i64, y: (y * ONE + HALF) as i64 }
}

/// The barycentric weights of the centre of pixel `(x, y)`.
pub open spec fn sample_weights(tri_screen: [Vec2f; 3], x: int, y: int) -> Weights {
    weights_spec(tri_screen, pixel_center(x, y))
}

/// The depth of the triangle at a sample: its corners' `z`, interpolated.
pub open spec fn sample_depth(tri: Triangle, w: Weights) -> int {
    interpolate_spec(
        w,
        tri.vertices[0].z as int,
        tri.vertices[1].z as int,
        tri.vertices[2].z as int,
    )
}

/// Whether the triangle is drawn at pixel `(x, y)` over a depth cell that
/// holds `stored`: the pixel's centre lies in the triangle and passes the
/// depth test.
pub open spec fn sample_visible(
    tri: Triangle,
    tri_screen: [Vec2f; 3],
    stored: Option<i64>,
    x: int,
    y: int,
) -> bool {
    let w = sample_weights(tri_screen, x, y);
    w.inside() && depth_test(stored, sample_depth(tri, w))
}

/// The colour of the triangle at pixel `(x, y)`: the shader's colour for the
/// interpolated texture coordinates.
pub open spec fn sample_color(
    tri: Triangle,
    tri_screen: [Vec2f; 3],
    shader: PixelShader,
    intensity: int,
    x: int,
    y: int,
) -> Color {
    let w = sample_weights(tri_screen, x, y);
    shader.render_spec(
        interpolate_spec(w, tri.uv[0].x as int, tri.uv[1].x as int, tri.uv[2].x as int),
        interpolate_spec(w, tri.uv[0].y as int, tri.uv[1].y as int, tri.uv[2].y as int),
        intensity,
    )
}

/// The depth cells after the triangle has been drawn over `depths`.
pub open spec fn drawn_depths(
    depths: Seq<Option<i64>>,
    width: int,
    tri: Triangle,
    tri_screen: [Vec2f; 3],
) -> Seq<Option<i64>> {
    Seq::new(
        depths.len(),
        |i: int|
            if sample_visible(tri, tri_screen, depths[i], i % width, i / width) {
                Some(sample_depth(tri, sample_weights(tri_screen, i % width, i / width)) as i64)
            } else {
                depths[i]
            },
    )
}

/// The colours after the triangle has been drawn over `colors`, with
/// `depths` in the depth buffer before.
pub open spec fn drawn_colors(
    colors: Seq<Color>,
    depths: Seq<Option<i64>>,
    width: int,
    tri: Triangle,
    tri_screen: [Vec2f; 3],
    shader: PixelShader,
    intensity: int,
) -> Seq<Color> {
    Seq::new(
        colors.len(),
        |i: int|
            if sample_visible(tri, tri_screen, depths[i], i % width, i / width) {
                sample_color(tri, tri_screen, shader, intensity, i % width, i / width)
            } else {
                colors[i]
            },
    )
}

/// The smallest of three numbers.
fn least(a: i64, b: i64, c: i64) -> (m: i64)
    ensures
        m == min3(a as int, b as int, c as int),
{
    if a <= b && a <= c {
        a
    } else if b <= c {
        b
    } else {
        c
    }
}

/// The largest of three numbers.
fn greatest(a: i64, b: i64, c: i64) -> (m: i64)
    ensures
        m == max3(a as int, b as int, c as int),
{
    if a >= b && a >= c {
        a
    } else if b >= c {
        b
    } else {
        c
    }
}

/// The whole pixel that a coordinate falls into.
fn pixel_of(coordinate: i64) -> (p: i64)
    ensures
        p == coordinate / ONE,
{
    let q = coordinate / ONE;
    if coordinate % ONE < 0 {
        q - 1
    } else {
        q
    }
}

/// The axis-aligned box around the three corners, clamped to the raster:
/// the only clipping there is. `None` means the triangle misses the raster.
pub fn bounding_box(tri_screen: &[Vec2f; 3], width: usize, height: usize) -> (bbox: Option<
    BoundingBox,
>)
    ensures
        bbox == bounding_box_spec(*tri_screen, width as int, height as int),
        bbox matches Some(b) ==> b.x_min <= b.x_max < width && b.y_min <= b.y_max < height,
{
    let left = pixel_of(least(tri_screen[0].x, tri_screen[1].x, tri_screen[2].x));
    let right = pixel_of(greatest(tri_screen[0].x, tri_screen[1].x, tri_screen[2].x));
    let bottom = pixel_of(least(tri_screen[0].y, tri_screen[1].y, tri_screen[2].y));
    let top = pixel_of(greatest(tri_screen[0].y, tri_screen[1].y, tri_screen[2].y));
    let x_min: i128 = if left < 0 { 0 } else { left as i128 };
    let x_max: i128 = if right as i128 > width as i128 - 1 { width as i128 - 1 } else { right as i128 };
    let y_min: i128 = if bottom < 0 { 0 } else { bottom as i128 };
    let y_max: i128 = if top as i128 > height as i128 - 1 { height as i128 - 1 } else { top as i128 };
    if x_min <= x_max && y_min <= y_max {
        Some(
            BoundingBox {
                x_min: x_min as usize,
                x_max: x_max as usize,
                y_min: y_min as usize,
                y_max: y_max as usize,
            },
        )
    } else {
        None
    }
}

/// A pixel whose centre lies in the triangle lies in the triangle's bounding
/// box; where there is no box, no pixel's centre lies in the triangle.
pub proof fn lemma_covered_pixel_in_box(
    tri_screen: [Vec2f; 3],
    width: int,
    height: int,
    x: int,
    y: int,
)
    requires
        corners_in_range(tri_screen),
        0 <= x < width <= MAX_DIM,
        0 <= y < height <= MAX_DIM,
        sample_weights(tri_screen, x, y).inside(),
    ensures
        bounding_box_spec(tri_screen, width, height) is Some,
        in_box(bounding_box_spec(tri_screen, width, height)->0, x, y),
{
    let p = pixel_center(x, y);
    let w = weights_spec(tri_screen, p);
    assert(p.in_range());
    lemma_weights_exact(tri_screen, p);
    assert(!degenerate(tri_screen));
    lemma_weights_locate(tri_screen, p);
    lemma_between_corners(
        w,
        p.x as int,
        tri_screen[0].x as int,
        tri_screen[1].x as int,
        tri_screen[2].x as int,
    );
    lemma_between_corners(
        w,
        p.y as int,
        tri_screen[0].y as int,
        tri_screen[1].y as int,
        tri_screen[2].y as int,
    );
}

/// A coordinate that is a convex combination of three others lies between
/// the least and the greatest of them.
proof fn lemma_between_corners(w: Weights, p: int, a: int, b: int, c: int)
    requires
        w.wf(),
        w.inside(),
        w.den * p == w.w0 * a + w.w1 * b + w.w2 * c,
    ensures
        min3(a, b, c) <= p <= max3(a, b, c),
{
    lemma_weighted_mean(w.w0 as int, w.w1 as int, w.w2 as int, w.den as int, a, b, c);
    let den = w.den as int;
    let lo = min3(a, b, c);
    let hi = max3(a, b, c);
    assert(lo <= p) by (nonlinear_arith)
        requires
            den > 0,
            den * lo <= den * p,
    ;
    assert(p <= hi) by (nonlinear_arith)
        requires
            den > 0,
            den * p <= den * hi,
    ;
}

/// The depth of a sample inside a triangle is the depth of some point
/// between its corners, so it is a depth a cell can hold.
pub proof fn lemma_sample_depth_fits(tri: Triangle, tri_screen: [Vec2f; 3], x: int, y: int)
    requires
        corners_in_range(tri_screen),
        0 <= x < MAX_DIM,
        0 <= y < MAX_DIM,
        sample_weights(tri_screen, x, y).inside(),
    ensures
        i64::MIN <= sample_depth(tri, sample_weights(tri_screen, x, y)) <= i64::MAX,
{
    let w = sample_weights(tri_screen, x, y);
    lemma_weights_exact(tri_screen, pixel_center(x, y));
    lemma_weighted_mean(
        w.w0 as int,
        w.w1 as int,
        w.w2 as int,
        w.den as int,
        tri.vertices[0].z as int,
        tri.vertices[1].z as int,
        tri.vertices[2].z as int,
    );
}

/// What a depth cell holds after a triangle has been drawn: where the
/// triangle covers the pixel, the greater of the triangle's depth there and
/// the depth held before; elsewhere, what it held before.
pub proof fn lemma_depth_is_greatest(
    depths: Seq<Option<i64>>,
    width: int,
    height: int,
    tri: Triangle,
    tri_screen: [Vec2f; 3],
    x: int,
    y: int,
)
    requires
        0 <= x < width <= MAX_DIM,
        0 <= y < height <= MAX_DIM,
        depths.len() == width * height,
        corners_in_range(tri_screen),
    ensures
        ({
            let i = cell_index(width, x, y);
            let w = sample_weights(tri_screen, x, y);
            let z = sample_depth(tri, w);
            let after = drawn_depths(depths, width, tri, tri_screen)[i];
            &&& 0 <= i < depths.len()
            &&& !w.inside() ==> after == depths[i]
            &&& w.inside() ==> match depths[i] {
                None => after == Some(z as i64) && z as i64 == z,
                Some(held) => after == Some(if z > held { z as i64 } else { held }) && z as i64
                    == z,
            }
        }),
{
    lemma_cell_index(width, height, x, y);
    if sample_weights(tri_screen, x, y).inside() {
        lemma_sample_depth_fits(tri, tri_screen, x, y);
    }
}

/// Depth test idempotence: drawing a triangle a second time changes neither
/// a depth nor a colour, since no sample exceeds the depth it left behind.
pub proof fn lemma_draw_twice(
    depths: Seq<Option<i64>>,
    colors: Seq<Color>,
    width: int,
    height: int,
    tri: Triangle,
    tri_screen: [Vec2f; 3],
    shader: PixelShader,
    intensity: int,
)
    requires
        0 <= width <= MAX_DIM,
        0 <= height <= MAX_DIM,
        depths.len() == width * height,
        colors.len() == width * height,
        corners_in_range(tri_screen),
    ensures
        drawn_depths(drawn_depths(depths, width, tri, tri_screen), width, tri, tri_screen)
            == drawn_depths(depths, width, tri, tri_screen),
        drawn_colors(
            drawn_colors(colors, depths, width, tri, tri_screen, shader, intensity),
            drawn_depths(depths, width, tri, tri_screen),
            width,
            tri,
            tri_screen,
            shader,
            intensity,
        ) == drawn_colors(colors, depths, width, tri, tri_screen, shader, intensity),
{
    let once_depths = drawn_depths(depths, width, tri, tri_screen);
    let once_colors = drawn_colors(colors, depths, width, tri, tri_screen, shader, intensity);
    let twice_depths = drawn_depths(once_depths, width, tri, tri_screen);
    let twice_colors = drawn_colors(
        once_colors,
        once_depths,
        width,
        tri,
        tri_screen,
        shader,
        intensity,
    );
    assert forall|i: int| 0 <= i < depths.len() implies twice_depths[i] == once_depths[i]
        && twice_colors[i] == once_colors[i] by {
        lemma_cell_pixel(width, height, i);
        if sample_weights(tri_screen, i % width, i / width).inside() {
            lemma_sample_depth_fits(tri, tri_screen, i % width, i / width);
        }
    }
    assert(twice_depths =~= once_depths);
    assert(twice_colors =~= once_colors);
}

/// The depth buffer does not depend on the order in which two triangles are
/// drawn: each cell ends with the greatest depth offered to it.
pub proof fn lemma_depths_commute(
    depths: Seq<Option<i64>>,
    width: int,
    height: int,
    a: Triangle,
    a_screen: [Vec2f; 3],
    b: Triangle,
    b_screen: [Vec2f; 3],
)
    requires
        0 <= width <= MAX_DIM,
        0 <= height <= MAX_DIM,
        depths.len() == width * height,
        corners_in_range(a_screen),
        corners_in_range(b_screen),
    ensures
        drawn_depths(drawn_depths(depths, width, a, a_screen), width, b, b_screen) == drawn_depths(
            drawn_depths(depths, width, b, b_screen),
            width,
            a,
            a_screen,
        ),
{
    let ab = drawn_depths(drawn_depths(depths, width, a, a_screen), width, b, b_screen);
    let ba = drawn_depths(drawn_depths(depths, width, b, b_screen), width, a, a_screen);
    assert forall|i: int| 0 <= i < depths.len() implies ab[i] == ba[i] by {
        lemma_cell_pixel(width, height, i);
        if sample_weights(a_screen, i % width, i / width).inside() {
            lemma_sample_depth_fits(a, a_screen, i % width, i / width);
        }
        if sample_weights(b_screen, i % width, i / width).inside() {
            lemma_sample_depth_fits(b, b_screen, i % width, i / width);
        }
    }
    assert(ab =~= ba);
}

/// Closer wins: where two triangles cover the same pixel and the second is
/// the closer there, closer also than what the depth buffer holds, the pixel
/// ends with the depth and the colour of the second, whichever of the two is
/// drawn first.
pub proof fn lemma_closer_wins(
    depths: Seq<Option<i64>>,
    colors: Seq<Color>,
    width: int,
    height: int,
    a: Triangle,
    a_screen: [Vec2f; 3],
    a_intensity: int,
    b: Triangle,
    b_screen: [Vec2f; 3],
    b_intensity: int,
    shader: PixelShader,
    x: int,
    y: int,
)
    requires
        0 <= x < width <= MAX_DIM,
        0 <= y < height <= MAX_DIM,
        depths.len() == width * height,
        colors.len() == width * height,
        corners_in_range(a_screen),
        corners_in_range(b_screen),
        sample_weights(a_screen, x, y).inside(),
        sample_weights(b_screen, x, y).inside(),
        sample_depth(a, sample_weights(a_screen, x, y)) < sample_depth(
            b,
            sample_weights(b_screen, x, y),
        ),
        depth_test(
            depths[cell_index(width, x, y)],
            sample_depth(b, sample_weights(b_screen, x, y)),
        ),
    ensures
        ({
            let i = cell_index(width, x, y);
            let a_depths = drawn_depths(depths, width, a, a_screen);
            let a_colors = drawn_colors(colors, depths, width, a, a_screen, shader, a_intensity);
            let b_depths = drawn_depths(depths, width, b, b_screen);
            let b_colors = drawn_colors(colors, depths, width, b, b_screen, shader, b_intensity);
            let closer = sample_color(b, b_screen, shader, b_intensity, x, y);
            &&& 0 <= i < colors.len()
            &&& drawn_colors(a_colors, a_depths, width, b, b_screen, shader, b_intensity)[i]
                == closer
            &&& drawn_colors(b_colors, b_depths, width, a, a_screen, shader, a_intensity)[i]
                == closer
            &&& drawn_depths(a_depths, width, b, b_screen)[i] == Some(
                sample_depth(b, sample_weights(b_screen, x, y)) as i64,
            )
            &&& drawn_depths(b_depths, width, a, a_screen)[i] == Some(
                sample_depth(b, sample_weights(b_screen, x, y)) as i64,
            )
        }),
{
    lemma_cell_index(width, height, x, y);
    lemma_sample_depth_fits(a, a_screen, x, y);
    lemma_sample_depth_fits(b, b_screen, x, y);
}

/// Whether pixel `(px, py)` has been dealt with when the scan of the box,
/// column by column, stands at `(x, y)`.
pub open spec fn scanned(bbox: BoundingBox, x: int, y: int, px: int, py: int) -> bool {
    in_box(bbox, px, py) && (px < x || (px == x && py < y))
}

/// A raster in the middle of a scan that stands at `(x, y)`: the cells of
/// the pixels dealt with hold what they are to hold in the end, the others
/// still hold what they held at the start.
pub open spec fn partly_drawn<T>(
    now: Seq<T>,
    before: Seq<T>,
    after: Seq<T>,
    bbox: BoundingBox,
    width: int,
    x: int,
    y: int,
) -> bool {
    &&& now.len() == before.len()
    &&& forall|i: int|
        0 <= i < before.len() ==> #[trigger] now[i] == (if scanned(
            bbox,
            x,
            y,
            i % width,
            i / width,
        ) {
            after[i]
        } else {
            before[i]
        })
}

/// Dealing with pixel `(x, y)` moves the scan one row up.
proof fn lemma_scan_step<T>(
    now: Seq<T>,
    next: Seq<T>,
    before: Seq<T>,
    after: Seq<T>,
    bbox: BoundingBox,
    width: int,
    height: int,
    x: int,
    y: int,
)
    requires
        0 <= x < width,
        0 <= y < height,
        before.len() == width * height,
        in_box(bbox, x, y),
        partly_drawn(now, before, after, bbox, width, x, y),
        next == now.update(cell_index(width, x, y), after[cell_index(width, x, y)]),
    ensures
        partly_drawn(next, before, after, bbox, width, x, y + 1),
{
    lemma_cell_index(width, height, x, y);
    assert forall|i: int| 0 <= i < before.len() implies #[trigger] next[i] == (if scanned(
        bbox,
        x,
        y + 1,
        i % width,
        i / width,
    ) {
        after[i]
    } else {
        before[i]
    }) by {
        lemma_cell_pixel(width, height, i);
        assert(now[i] == (if scanned(bbox, x, y, i % width, i / width) {
            after[i]
        } else {
            before[i]
        }));
    }
}

/// Once the scan has left the box, the raster holds what it is to hold in
/// the end, provided that nothing is to change outside the box.
proof fn lemma_scan_done<T>(
    now: Seq<T>,
    before: Seq<T>,
    after: Seq<T>,
    bbox: BoundingBox,
    width: int,
    height: int,
)
    requires
        0 <= width,
        before.len() == width * height,
        after.len() == before.len(),
        partly_drawn(now, before, after, bbox, width, bbox.x_max + 1, bbox.y_min as int),
        forall|i: int|
            0 <= i < before.len() && !in_box(bbox, i % width, i / width) ==> #[trigger] after[i]
                == before[i],
    ensures
        now == after,
{
    assert forall|i: int| 0 <= i < before.len() implies now[i] == after[i] by {
        lemma_cell_pixel(width, height, i);
        assert(now[i] == (if scanned(
            bbox,
            bbox.x_max + 1,
            bbox.y_min as int,
            i % width,
            i / width,
        ) {
            after[i]
        } else {
            before[i]
        }));
    }
    assert(now =~= after);
}

/// A triangle changes no cell of a pixel outside its bounding box, and no
/// cell at all where it has no bounding box.
proof fn lemma_unchanged_outside_box(
    depths: Seq<Option<i64>>,
    colors: Seq<Color>,
    width: int,
    height: int,
    tri: Triangle,
    tri_screen: [Vec2f; 3],
    shader: PixelShader,
    intensity: int,
    i: int,
)
    requires
        0 <= width <= MAX_DIM,
        0 <= height <= MAX_DIM,
        depths.len() == width * height,
        colors.len() == width * height,
        corners_in_range(tri_screen),
        0 <= i < depths.len(),
        bounding_box_spec(tri_screen, width, height) matches Some(bbox) ==> !in_box(
            bbox,
            i % width,
            i / width,
        ),
    ensures
        drawn_depths(depths, width, tri, tri_screen)[i] == depths[i],
        drawn_colors(colors, depths, width, tri, tri_screen, shader, intensity)[i] == colors[i],
{
    lemma_cell_pixel(width, height, i);
    if sample_weights(tri_screen, i % width, i / width).inside() {
        lemma_covered_pixel_in_box(tri_screen, width, height, i % width, i / width);
    }
}

/// Draws one triangle.
///
/// Every pixel of the raster whose centre lies inside the screen-space
/// triangle and whose interpolated depth is greater than what the depth
/// buffer holds there gets that depth and the shader's colour for its
/// interpolated texture coordinates. Every other pixel keeps its depth and
/// its colour. A triangle of less than a pixel's area draws nothing.
///
/// `tri` gives the depth and the texture coordinates of the corners,
/// `tri_screen` their screen positions.
#[verifier::loop_isolation(false)]
pub fn triangle(
    canvas: &mut Canvas,
    tri: &Triangle,
    tri_screen: &[Vec2f; 3],
    pixel_shader: &PixelShader,
    light_intensity: i64,
    zbuffer: &mut DepthBuffer,
)
    requires
        old(canvas).wf(),
        old(zbuffer).wf(),
        old(canvas).width_spec() == old(zbuffer).width_spec(),
        old(canvas).height_spec() == old(zbuffer).height_spec(),
        corners_in_range(*tri_screen),
        pixel_shader.wf(),
        0 <= light_intensity <= ONE,
    ensures
        final(zbuffer)@ == drawn_depths(
            old(zbuffer)@,
            old(zbuffer).width_spec() as int,
            *tri,
            *tri_screen,
        ),
        final(canvas)@ == drawn_colors(
            old(canvas)@,
            old(zbuffer)@,
            old(zbuffer).width_spec() as int,
            *tri,
            *tri_screen,
            *pixel_shader,
            light_intensity as int,
        ),
        final(canvas).wf(),
        final(zbuffer).wf(),
        final(canvas).width_spec() == old(canvas).width_spec(),
        final(canvas).height_spec() == old(canvas).height_spec(),
        final(zbuffer).width_spec() == old(zbuffer).width_spec(),
        final(zbuffer).height_spec() == old(zbuffer).height_spec(),
{
    let width = canvas.width();
    let height = canvas.height();
    let ghost depths = zbuffer@;
    let ghost colors = canvas@;
    let ghost after_depths = drawn_depths(depths, width as int, *tri, *tri_screen);
    let ghost after_colors = drawn_colors(
        colors,
        depths,
        width as int,
        *tri,
        *tri_screen,
        *pixel_shader,
        light_intensity as int,
    );
    proof {
        lemma_raster_size(width as int, height as int);
        assert forall|i: int|
            0 <= i < depths.len() && (bounding_box_spec(
                *tri_screen,
                width as int,
                height as int,
            ) matches Some(bbox) ==> !in_box(
                bbox,
                i % (width as int),
                i / (width as int),
            )) implies #[trigger] after_depths[i] == depths[i] by {
            lemma_unchanged_outside_box(
                depths,
                colors,
                width as int,
                height as int,
                *tri,
                *tri_screen,
                *pixel_shader,
                light_intensity as int,
                i,
            );
        }
        assert forall|i: int|
            0 <= i < depths.len() && (bounding_box_spec(
                *tri_screen,
                width as int,
                height as int,
            ) matches Some(bbox) ==> !in_box(
                bbox,
                i % (width as int),
                i / (width as int),
            )) implies #[trigger] after_colors[i] == colors[i] by {
            lemma_unchanged_outside_box(
                depths,
                colors,
                width as int,
                height as int,
                *tri,
                *tri_screen,
                *pixel_shader,
                light_intensity as int,
                i,
            );
        }
    }
    match bounding_box(tri_screen, width, height) {
        None => {
            assert(zbuffer@ =~= after_depths);
            assert(canvas@ =~= after_colors);
        },
        Some(bbox) => {
            let mut x = bbox.x_min;
            while x <= bbox.x_max
                invariant
                    bbox.x_min <= x <= bbox.x_max + 1,
                    canvas.wf(),
                    zbuffer.wf(),
                    canvas.width_spec() == width,
                    canvas.height_spec() == height,
                    zbuffer.width_spec() == width,
                    zbuffer.height_spec() == height,
                    partly_drawn(
                        zbuffer@,
                        depths,
                        after_depths,
                        bbox,
                        width as int,
                        x as int,
                        bbox.y_min as int,
                    ),
                    partly_drawn(
                        canvas@,
                        colors,
                        after_colors,
                        bbox,
                        width as int,
                        x as int,
                        bbox.y_min as int,
                    ),
                decreases bbox.x_max + 1 - x,
            {
                let mut y = bbox.y_min;
                while y <= bbox.y_max
                    invariant
                        bbox.x_min <= x <= bbox.x_max,
                        bbox.y_min <= y <= bbox.y_max + 1,
                        canvas.wf(),
                        zbuffer.wf(),
                        canvas.width_spec() == width,
                        canvas.height_spec() == height,
                        zbuffer.width_spec() == width,
                        zbuffer.height_spec() == height,
                        partly_drawn(
                            zbuffer@,
                            depths,
                            after_depths,
                            bbox,
                            width as int,
                            x as int,
                            y as int,
                        ),
                        partly_drawn(
                            canvas@,
                            colors,
                            after_colors,
                            bbox,
                            width as int,
                            x as int,
                            y as int,
                        ),
                    decreases bbox.y_max + 1 - y,
                {
                    let ghost depths_now = zbuffer@;
                    let ghost colors_now = canvas@;
                    proof {
                        lemma_cell_index(width as int, height as int, x as int, y as int);
                    }
                    let zindex = y * width + x;
                    let sample = Vec2f::new(x as i64 * ONE + HALF, y as i64 * ONE + HALF);
                    let bc_screen = barycentric(tri_screen, sample);
                    if bc_screen.is_inside() {
                        let sample_z = bc_screen.interpolate(
                            tri.vertices[0].z,
                            tri.vertices[1].z,
                            tri.vertices[2].z,
                        );
                        if zbuffer.test_and_update(zindex, sample_z) {
                            let u = bc_screen.interpolate(tri.uv[0].x, tri.uv[1].x, tri.uv[2].x);
                            let v = bc_screen.interpolate(tri.uv[0].y, tri.uv[1].y, tri.uv[2].y);
                            canvas.set(zindex, pixel_shader.render(u, v, light_intensity));
                        }
                    }
                    proof {
                        assert(sample == pixel_center(x as int, y as int));
                        assert(depths_now[zindex as int] == depths[zindex as int]);
                        assert(colors_now[zindex as int] == colors[zindex as int]);
                        assert(zbuffer@ =~= depths_now.update(
                            zindex as int,
                            after_depths[zindex as int],
                        ));
                        assert(canvas@ =~= colors_now.update(
                            zindex as int,
                            after_colors[zindex as int],
                        ));
                        lemma_scan_step(
                            depths_now,
                            zbuffer@,
                            depths,
                            after_depths,
                            bbox,
                            width as int,
                            height as int,
                            x as int,
                            y as int,
                        );
                        lemma_scan_step(
                            colors_now,
                            canvas@,
                            colors,
                            after_colors,
                            bbox,
                            width as int,
                            height as int,
                            x as int,
                            y as int,
                        );
                    }
                    y += 1;
                }
                x += 1;
            }
            proof {
                lemma_scan_done(zbuffer@, depths, after_depths, bbox, width as int, height as int);
                lemma_scan_done(canvas@, colors, after_colors, bbox, width as int, height as int);
            }
        },
    }
}

} // verus!
