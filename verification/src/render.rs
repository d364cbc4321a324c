//! A frame: every triangle of a mesh, lit, projected and rasterized.
use vstd::prelude::*;
use crate::barycentric::corners_in_range;
use crate::fixed::MAX_DIM;
use crate::frame::{Canvas, DepthBuffer};
use crate::lighting::{intensity_spec, light_intensity};
use crate::projector::{project_triangle, project_triangle_spec};
use crate::raster::{drawn_colors, drawn_depths, lemma_depths_commute, triangle};
use crate::shader::{Color, PixelShader};
use crate::triangle::Triangle;
use crate::vec3f::Vec3f;

verus! {

/// The depth cells and the colours of a frame.
pub struct FrameState {
    pub depths: Seq<Option<i64>>,
    pub colors: Seq<Color>,
}

/// Whether a triangle can be drawn into a raster of the given size: its
/// corners, and their projections, lie inside the coordinate limit.
pub open spec fn drawable(tri: Triangle, width: int, height: int) -> bool {
    tri.in_range() && corners_in_range(project_triangle_spec(tri, width, height))
}

/// The frame after one triangle has been drawn into it under light from
/// `light_dir`. A triangle that cannot be drawn leaves the frame as it is.
pub open spec fn frame_with(
    state: FrameState,
    width: int,
    height: int,
    tri: Triangle,
    shader: PixelShader,
    light_dir: Vec3f,
) -> FrameState {
    if drawable(tri, width, height) {
        let tri_screen = project_triangle_spec(tri, width, height);
        let intensity = intensity_spec(tri.normal_spec(), light_dir);
        FrameState {
            depths: drawn_depths(state.depths, width, tri, tri_screen),
            colors: drawn_colors(
                state.colors,
                state.depths,
                width,
                tri,
                tri_screen,
                shader,
                intensity,
            ),
        }
    } else {
        state
    }
}

/// The frame after the triangles of `model` have been drawn into it, first
/// to last.
pub open spec fn frame_after(
    state: FrameState,
    width: int,
    height: int,
    model: Seq<Triangle>,
    shader: PixelShader,
    light_dir: Vec3f,
) -> FrameState
    decreases model.len(),
{
    if model.len() == 0 {
        state
    } else {
        frame_with(
            frame_after(state, width, height, model.drop_last(), shader, light_dir),
            width,
            height,
            model.last(),
            shader,
            light_dir,
        )
    }
}

/// A frame in which nothing has been drawn: no depth anywhere, every pixel
/// in `background`.
pub open spec fn blank_frame(cells: nat, background: Color) -> FrameState {
    FrameState {
        depths: Seq::new(cells, |i: int| None::<i64>),
        colors: Seq::new(cells, |i: int| background),
    }
}

/// The depths of a frame do not depend on the order in which two triangles
/// are submitted: the closest sample wins either way.
pub proof fn lemma_submission_order(
    state: FrameState,
    width: int,
    height: int,
    a: Triangle,
    b: Triangle,
    shader: PixelShader,
    light_dir: Vec3f,
)
    requires
        0 <= width <= MAX_DIM,
        0 <= height <= MAX_DIM,
        state.depths.len() == width * height,
        state.colors.len() == width * height,
    ensures
        frame_with(
            frame_with(state, width, height, a, shader, light_dir),
            width,
            height,
            b,
            shader,
            light_dir,
        ).depths == frame_with(
            frame_with(state, width, height, b, shader, light_dir),
            width,
            height,
            a,
            shader,
            light_dir,
        ).depths,
{
    if drawable(a, width, height) && drawable(b, width, height) {
        lemma_depths_commute(
            state.depths,
            width,
            height,
            a,
            project_triangle_spec(a, width, height),
            b,
            project_triangle_spec(b, width, height),
        );
    }
}

/// Draws one world-space triangle: computes its light intensity, projects
/// it, and rasterizes it. Returns whether the triangle could be drawn; one
/// with a corner beyond the coordinate limit is passed over.
pub fn draw_triangle(
    canvas: &mut Canvas,
    zbuffer: &mut DepthBuffer,
    tri: &Triangle,
    shader: &PixelShader,
    light_dir: &Vec3f,
) -> (drawn: bool)
    requires
        old(canvas).wf(),
        old(zbuffer).wf(),
        old(canvas).width_spec() == old(zbuffer).width_spec(),
        old(canvas).height_spec() == old(zbuffer).height_spec(),
        shader.wf(),
        light_dir.in_range(),
    ensures
        drawn == drawable(
            *tri,
            old(canvas).width_spec() as int,
            old(canvas).height_spec() as int,
        ),
        (FrameState { depths: final(zbuffer)@, colors: final(canvas)@ }) == frame_with(
            FrameState { depths: old(zbuffer)@, colors: old(canvas)@ },
            old(canvas).width_spec() as int,
            old(canvas).height_spec() as int,
            *tri,
            *shader,
            *light_dir,
        ),
        final(canvas).wf(),
        final(zbuffer).wf(),
        final(canvas).width_spec() == old(canvas).width_spec(),
        final(canvas).height_spec() == old(canvas).height_spec(),
        final(zbuffer).width_spec() == old(zbuffer).width_spec(),
        final(zbuffer).height_spec() == old(zbuffer).height_spec(),
{
    if !(tri.vertices[0].is_in_range() && tri.vertices[1].is_in_range()
        && tri.vertices[2].is_in_range()) {
        return false;
    }
    let tri_screen = project_triangle(tri, canvas.width(), canvas.height());
    if !(tri_screen[0].is_in_range() && tri_screen[1].is_in_range()
        && tri_screen[2].is_in_range()) {
        return false;
    }
    let intensity = light_intensity(tri, light_dir);
    triangle(canvas, tri, &tri_screen, shader, intensity, zbuffer);
    true
}

/// Renders one frame: empties the depth buffer, paints the canvas in
/// `background`, then draws the triangles of `model`, first to last.
pub fn render_frame(
    canvas: &mut Canvas,
    zbuffer: &mut DepthBuffer,
    model: &Vec<Triangle>,
    shader: &PixelShader,
    light_dir: &Vec3f,
    background: Color,
)
    requires
        old(canvas).wf(),
        old(zbuffer).wf(),
        old(canvas).width_spec() == old(zbuffer).width_spec(),
        old(canvas).height_spec() == old(zbuffer).height_spec(),
        shader.wf(),
        light_dir.in_range(),
    ensures
        (FrameState { depths: final(zbuffer)@, colors: final(canvas)@ }) == frame_after(
            blank_frame(old(canvas)@.len(), background),
            old(canvas).width_spec() as int,
            old(canvas).height_spec() as int,
            model@,
            *shader,
            *light_dir,
        ),
        final(canvas).wf(),
        final(zbuffer).wf(),
        final(canvas).width_spec() == old(canvas).width_spec(),
        final(canvas).height_spec() == old(canvas).height_spec(),
        final(zbuffer).width_spec() == old(zbuffer).width_spec(),
        final(zbuffer).height_spec() == old(zbuffer).height_spec(),
{
    let ghost width = canvas.width_spec() as int;
    let ghost height = canvas.height_spec() as int;
    let ghost blank = blank_frame(canvas@.len(), background);
    canvas.clear(background);
    zbuffer.reset();
    proof {
        assert(zbuffer@ =~= blank.depths);
        assert(canvas@ =~= blank.colors);
    }
    let mut i: usize = 0;
    while i < model.len()
        invariant
            i <= model@.len(),
            canvas.wf(),
            zbuffer.wf(),
            canvas.width_spec() == width,
            canvas.height_spec() == height,
            zbuffer.width_spec() == width,
            zbuffer.height_spec() == height,
            shader.wf(),
            light_dir.in_range(),
            (FrameState { depths: zbuffer@, colors: canvas@ }) == frame_after(
                blank,
                width,
                height,
                model@.take(i as int),
                *shader,
                *light_dir,
            ),
        decreases model@.len() - i,
    {
        proof {
            assert(model@.take(i + 1).drop_last() == model@.take(i as int));
        }
        draw_triangle(canvas, zbuffer, &model[i], shader, light_dir);
        i += 1;
    }
    proof {
        assert(model@.take(i as int) == model@);
    }
}

} // verus!
