//! Straight lines between two pixels.
use vstd::prelude::*;
use crate::fixed::trunc_div;
use crate::frame::{lemma_cell_index, lemma_cell_pixel, Canvas};
use crate::shader::Color;

verus! {

/// A line made ready for drawing: it runs along its longer axis from `a0` up
/// to `a1`, while the other coordinate goes from `b0` to `b1`. `steep` says
/// that the longer axis is the vertical one.
pub struct Run {
    pub a0: int,
    pub b0: int,
    pub a1: int,
    pub b1: int,
    pub steep: bool,
}

/// The distance between two coordinates.
pub open spec fn distance(p: int, q: int) -> int {
    if p < q {
        q - p
    } else {
        p - q
    }
}

/// The line from `(x0, y0)` to `(x1, y1)`, turned so that it runs along its
/// longer axis in increasing direction.
pub open spec fn run_of(x0: int, y0: int, x1: int, y1: int) -> Run {
    let steep = distance(x0, x1) < distance(y0, y1);
    let (from, from_side, to, to_side) = if steep {
        (y0, x0, y1, x1)
    } else {
        (x0, y0, x1, y1)
    };
    if from > to {
        Run { a0: to, b0: to_side, a1: from, b1: from_side, steep }
    } else {
        Run { a0: from, b0: from_side, a1: to, b1: to_side, steep }
    }
}

/// The pixel of the line at step `k` along its longer axis: the other
/// coordinate is interpolated between the two ends and rounded toward zero.
pub open spec fn line_point(run: Run, k: int) -> (int, int) {
    let a = run.a0 + k;
    let b = trunc_div(run.b0 * (run.a1 - a) + run.b1 * (a - run.a0), run.a1 - run.a0);
    if run.steep {
        (b, a)
    } else {
        (a, b)
    }
}

/// Whether one of the first `n` steps of the line falls on pixel `(x, y)`.
pub open spec fn reached(run: Run, n: int, x: int, y: int) -> bool {
    exists|k: int| 0 <= k < n && #[trigger] line_point(run, k) == (x, y)
}

/// The colours after the line has been drawn over `colors`: one pixel for
/// every step along the longer axis, the far end left out. Steps that fall
/// outside the raster paint nothing.
pub open spec fn with_line(
    colors: Seq<Color>,
    width: int,
    x0: int,
    y0: int,
    x1: int,
    y1: int,
    color: Color,
) -> Seq<Color> {
    let run = run_of(x0, y0, x1, y1);
    Seq::new(
        colors.len(),
        |i: int|
            if reached(run, run.a1 - run.a0, i % width, i / width) {
                color
            } else {
                colors[i]
            },
    )
}

/// Draws the line from `(x0, y0)` up to, not including, `(x1, y1)`, where
/// `(x1, y1)` is the end that lies further along the longer axis.
pub fn line(canvas: &mut Canvas, x0: i16, y0: i16, x1: i16, y1: i16, color: Color)
    requires
        old(canvas).wf(),
    ensures
        final(canvas)@ == with_line(
            old(canvas)@,
            old(canvas).width_spec() as int,
            x0 as int,
            y0 as int,
            x1 as int,
            y1 as int,
            color,
        ),
        final(canvas).wf(),
        final(canvas).width_spec() == old(canvas).width_spec(),
        final(canvas).height_spec() == old(canvas).height_spec(),
{
    let width = canvas.width();
    let height = canvas.height();
    let ghost colors = canvas@;
    let ghost run = run_of(x0 as int, y0 as int, x1 as int, y1 as int);
    let mut a0 = x0 as i64;
    let mut b0 = y0 as i64;
    let mut a1 = x1 as i64;
    let mut b1 = y1 as i64;
    let mut steep = false;
    // Walk along the longer axis.
    if span(a0, a1) < span(b0, b1) {
        let (p, q) = (a0, a1);
        a0 = b0;
        a1 = b1;
        b0 = p;
        b1 = q;
        steep = true;
    }
    // Walk in increasing direction.
    if a0 > a1 {
        let (p, q) = (a0, b0);
        a0 = a1;
        b0 = b1;
        a1 = p;
        b1 = q;
    }
    assert(run == (Run { a0: a0 as int, b0: b0 as int, a1: a1 as int, b1: b1 as int, steep }));
    let mut a = a0;
    while a < a1
        invariant
            a0 <= a <= a1,
            -32768 <= a0 <= 32767,
            -32768 <= a1 <= 32767,
            -32768 <= b0 <= 32767,
            -32768 <= b1 <= 32767,
            run == (Run { a0: a0 as int, b0: b0 as int, a1: a1 as int, b1: b1 as int, steep }),
            canvas.wf(),
            canvas.width_spec() == width,
            canvas.height_spec() == height,
            canvas@.len() == colors.len(),
            forall|i: int|
                0 <= i < colors.len() ==> #[trigger] canvas@[i] == (if reached(
                    run,
                    a - a0,
                    i % (width as int),
                    i / (width as int),
                ) {
                    color
                } else {
                    colors[i]
                }),
        decreases a1 - a,
    {
        let ghost before = canvas@;
        assert(-0x1_0000_0000 <= b0 * (a1 - a) <= 0x1_0000_0000 && -0x1_0000_0000 <= b1 * (a - a0)
            <= 0x1_0000_0000) by (nonlinear_arith)
            requires
                -32768 <= b0 <= 32767,
                -32768 <= b1 <= 32767,
                0 <= a1 - a <= 65535,
                0 <= a - a0 <= 65535,
        ;
        let b = (b0 * (a1 - a) + b1 * (a - a0)) / (a1 - a0);
        let (x, y) = if steep {
            (b, a)
        } else {
            (a, b)
        };
        assert((x as int, y as int) == line_point(run, a - a0));
        if 0 <= x && x < width as i64 && 0 <= y && y < height as i64 {
            proof {
                lemma_cell_index(width as int, height as int, x as int, y as int);
            }
            canvas.set_pixel(x as usize, y as usize, color);
        }
        proof {
            assert forall|i: int| 0 <= i < colors.len() implies #[trigger] canvas@[i] == (if reached(
                run,
                a + 1 - a0,
                i % (width as int),
                i / (width as int),
            ) {
                color
            } else {
                colors[i]
            }) by {
                lemma_cell_pixel(width as int, height as int, i);
                let px = i % (width as int);
                let py = i / (width as int);
                if (px, py) == (x as int, y as int) {
                    assert(reached(run, a + 1 - a0, px, py));
                } else {
                    assert(canvas@[i] == before[i]);
                    if reached(run, a - a0, px, py) {
                        let k = choose|k: int|
                            0 <= k < a - a0 && #[trigger] line_point(run, k) == (px, py);
                        assert(0 <= k < a + 1 - a0 && line_point(run, k) == (px, py));
                    }
                    if reached(run, a + 1 - a0, px, py) {
                        let k = choose|k: int|
                            0 <= k < a + 1 - a0 && #[trigger] line_point(run, k) == (px, py);
                        assert(0 <= k < a - a0 && line_point(run, k) == (px, py));
                    }
                }
            }
        }
        a += 1;
    }
    proof {
        assert(canvas@ =~= with_line(
            colors,
            width as int,
            x0 as int,
            y0 as int,
            x1 as int,
            y1 as int,
            color,
        ));
    }
}

/// The distance between two coordinates.
fn span(p: i64, q: i64) -> (d: i64)
    requires
        -32768 <= p <= 32767,
        -32768 <= q <= 32767,
    ensures
        d == distance(p as int, q as int),
{
    if p < q {
        q - p
    } else {
        p - q
    }
}

} // verus!
