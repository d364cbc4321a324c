//! The two per-frame rasters: the depth buffer and the colour canvas.
//!
//! Both are dense, row by row: the cell of pixel `(x, y)` has the index
//! `y * width + x`.
use vstd::prelude::*;
use crate::fixed::MAX_DIM;
use crate::shader::Color;

verus! {

/// Whether a sample at depth `z` is visible over what a depth cell holds:
/// over an empty cell always, over a stored depth when it is strictly
/// greater. Larger depths are closer to the viewer.
pub open spec fn depth_test(stored: Option<i64>, z: int) -> bool {
    match stored {
        None => true,
        Some(depth) => z > depth,
    }
}

/// The index of the cell of pixel `(x, y)` in a raster `width` pixels wide.
pub open spec fn cell_index(width: int, x: int, y: int) -> int {
    y * width + x
}

/// One depth per pixel: the greatest depth of any sample that has passed the
/// depth test there since the last reset, or nothing.
pub struct DepthBuffer {
    width: usize,
    height: usize,
    cells: Vec<Option<i64>>,
}

impl DepthBuffer {
    /// The depth cells, row by row.
    pub closed spec fn view(&self) -> Seq<Option<i64>> {
        self.cells@
    }

    pub closed spec fn width_spec(&self) -> nat {
        self.width as nat
    }

    pub closed spec fn height_spec(&self) -> nat {
        self.height as nat
    }

    /// The raster is no larger than `MAX_DIM` either way and holds one cell
    /// per pixel.
    pub open spec fn wf(&self) -> bool {
        &&& self.width_spec() <= MAX_DIM
        &&& self.height_spec() <= MAX_DIM
        &&& self@.len() == self.width_spec() * self.height_spec()
    }

    /// An empty depth buffer of the given size, or `None` where a side
    /// exceeds `MAX_DIM`.
    pub fn new(width: usize, height: usize) -> (res: Option<DepthBuffer>)
        ensures
            res is Some <==> width <= MAX_DIM && height <= MAX_DIM,
            res matches Some(buffer) ==> {
                &&& buffer.wf()
                &&& buffer.width_spec() == width
                &&& buffer.height_spec() == height
                &&& forall|i: int| 0 <= i < buffer@.len() ==> buffer@[i] is None
            },
    {
        if width > MAX_DIM || height > MAX_DIM {
            return None;
        }
        proof {
            lemma_raster_size(width as int, height as int);
        }
        Some(DepthBuffer { width, height, cells: vec![None; width * height] })
    }

    pub fn width(&self) -> (w: usize)
        ensures
            w == self.width_spec(),
    {
        self.width
    }

    pub fn height(&self) -> (h: usize)
        ensures
            h == self.height_spec(),
    {
        self.height
    }

    /// What the cell at `index` holds.
    pub fn get(&self, index: usize) -> (stored: Option<i64>)
        requires
            index < self@.len(),
        ensures
            stored == self@[index as int],
    {
        self.cells[index]
    }

    /// Empties every cell, as at the start of a frame.
    pub fn reset(&mut self)
        ensures
            final(self).width_spec() == old(self).width_spec(),
            final(self).height_spec() == old(self).height_spec(),
            final(self)@.len() == old(self)@.len(),
            forall|i: int| 0 <= i < final(self)@.len() ==> final(self)@[i] is None,
    {
        let n = self.cells.len();
        let mut i: usize = 0;
        while i < n
            invariant
                n == self.cells@.len(),
                i <= n,
                self.width == old(self).width,
                self.height == old(self).height,
                forall|j: int| 0 <= j < i ==> self.cells@[j] is None,
            decreases n - i,
        {
            self.cells.set(i, None);
            i += 1;
        }
    }

    /// Compares a sample's depth with the cell at `index` and stores it
    /// where the sample is visible. Returns whether it was.
    pub fn test_and_update(&mut self, index: usize, z: i64) -> (visible: bool)
        requires
            index < old(self)@.len(),
        ensures
            visible == depth_test(old(self)@[index as int], z as int),
            final(self)@ == (if visible {
                old(self)@.update(index as int, Some(z))
            } else {
                old(self)@
            }),
            final(self).width_spec() == old(self).width_spec(),
            final(self).height_spec() == old(self).height_spec(),
    {
        let visible = match self.cells[index] {
            None => true,
            Some(depth) => depth < z,
        };
        if visible {
            self.cells.set(index, Some(z));
        }
        visible
    }
}

/// One colour per pixel: the picture of the current frame.
pub struct Canvas {
    width: usize,
    height: usize,
    pixels: Vec<Color>,
}

impl Canvas {
    /// The colours, row by row.
    pub closed spec fn view(&self) -> Seq<Color> {
        self.pixels@
    }

    pub closed spec fn width_spec(&self) -> nat {
        self.width as nat
    }

    pub closed spec fn height_spec(&self) -> nat {
        self.height as nat
    }

    /// The raster is no larger than `MAX_DIM` either way and holds one colour
    /// per pixel.
    pub open spec fn wf(&self) -> bool {
        &&& self.width_spec() <= MAX_DIM
        &&& self.height_spec() <= MAX_DIM
        &&& self@.len() == self.width_spec() * self.height_spec()
    }

    /// A canvas of the given size with every pixel in `background`, or
    /// `None` where a side exceeds `MAX_DIM`.
    pub fn new(width: usize, height: usize, background: Color) -> (res: Option<Canvas>)
        ensures
            res is Some <==> width <= MAX_DIM && height <= MAX_DIM,
            res matches Some(canvas) ==> {
                &&& canvas.wf()
                &&& canvas.width_spec() == width
                &&& canvas.height_spec() == height
                &&& forall|i: int| 0 <= i < canvas@.len() ==> canvas@[i] == background
            },
    {
        if width > MAX_DIM || height > MAX_DIM {
            return None;
        }
        proof {
            lemma_raster_size(width as int, height as int);
        }
        Some(Canvas { width, height, pixels: vec![background; width * height] })
    }

    pub fn width(&self) -> (w: usize)
        ensures
            w == self.width_spec(),
    {
        self.width
    }

    pub fn height(&self) -> (h: usize)
        ensures
            h == self.height_spec(),
    {
        self.height
    }

    /// Paints every pixel in `background`, as at the start of a frame.
    pub fn clear(&mut self, background: Color)
        ensures
            final(self).width_spec() == old(self).width_spec(),
            final(self).height_spec() == old(self).height_spec(),
            final(self)@.len() == old(self)@.len(),
            forall|i: int| 0 <= i < final(self)@.len() ==> final(self)@[i] == background,
    {
        let n = self.pixels.len();
        let mut i: usize = 0;
        while i < n
            invariant
                n == self.pixels@.len(),
                i <= n,
                self.width == old(self).width,
                self.height == old(self).height,
                forall|j: int| 0 <= j < i ==> self.pixels@[j] == background,
            decreases n - i,
        {
            self.pixels.set(i, background);
            i += 1;
        }
    }

    /// The colour of pixel `(x, y)`.
    pub fn pixel(&self, x: usize, y: usize) -> (c: Color)
        requires
            self.wf(),
            x < self.width_spec(),
            y < self.height_spec(),
        ensures
            c == self@[cell_index(self.width_spec() as int, x as int, y as int)],
    {
        proof {
            lemma_cell_index(self.width as int, self.height as int, x as int, y as int);
            lemma_raster_size(self.width as int, self.height as int);
        }
        self.pixels[y * self.width + x]
    }

    /// Paints pixel `(x, y)`.
    pub fn set_pixel(&mut self, x: usize, y: usize, color: Color)
        requires
            old(self).wf(),
            x < old(self).width_spec(),
            y < old(self).height_spec(),
        ensures
            final(self)@ == old(self)@.update(
                cell_index(old(self).width_spec() as int, x as int, y as int),
                color,
            ),
            final(self).width_spec() == old(self).width_spec(),
            final(self).height_spec() == old(self).height_spec(),
    {
        proof {
            lemma_cell_index(self.width as int, self.height as int, x as int, y as int);
            lemma_raster_size(self.width as int, self.height as int);
        }
        let index = y * self.width + x;
        self.pixels.set(index, color);
    }

    /// Paints the cell at `index`.
    pub fn set(&mut self, index: usize, color: Color)
        requires
            index < old(self)@.len(),
        ensures
            final(self)@ == old(self)@.update(index as int, color),
            final(self).width_spec() == old(self).width_spec(),
            final(self).height_spec() == old(self).height_spec(),
    {
        self.pixels.set(index, color);
    }
}

/// The cell of a pixel of the raster lies in the raster, and the pixel can be
/// read back from the cell's index.
pub proof fn lemma_cell_index(width: int, height: int, x: int, y: int)
    requires
        0 <= x < width,
        0 <= y < height,
    ensures
        0 <= y * width <= cell_index(width, x, y) < width * height,
        cell_index(width, x, y) % width == x,
        cell_index(width, x, y) / width == y,
{
    assert(y * width + x < width * height && y * width >= 0) by (nonlinear_arith)
        requires
            0 <= x < width,
            0 <= y < height,
    ;
    vstd::arithmetic::div_mod::lemma_fundamental_div_mod_converse(y * width + x, width, y, x);
}

/// A raster within `MAX_DIM` has at most `MAX_DIM * MAX_DIM` cells.
pub proof fn lemma_raster_size(width: int, height: int)
    requires
        0 <= width <= MAX_DIM,
        0 <= height <= MAX_DIM,
    ensures
        0 <= width * height <= 67108864,
{
    assert(0 <= width * height <= 67108864) by (nonlinear_arith)
        requires
            0 <= width <= 8192,
            0 <= height <= 8192,
    ;
}

/// Every cell of the raster belongs to one pixel of it.
pub proof fn lemma_cell_pixel(width: int, height: int, index: int)
    requires
        0 <= index < width * height,
        0 <= width,
    ensures
        0 <= index % width < width,
        0 <= index / width < height,
        cell_index(width, index % width, index / width) == index,
{
    assert(width > 0) by (nonlinear_arith)
        requires
            0 < width * height,
            0 <= width,
    ;
    vstd::arithmetic::div_mod::lemma_fundamental_div_mod(index, width);
    vstd::arithmetic::div_mod::lemma_mod_pos_bound(index, width);
    vstd::arithmetic::div_mod::lemma_div_pos_is_pos(index, width);
    let q = index / width;
    assert(width * q == q * width) by (nonlinear_arith);
    if q >= height {
        assert(width * q >= width * height) by (nonlinear_arith)
            requires
                q >= height,
                width > 0,
        ;
    }
}

} // verus!
