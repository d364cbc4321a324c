//! Per-pixel shading: from interpolated texture coordinates and a light
//! intensity to a colour.
use vstd::prelude::*;
use image::DynamicImage;
use crate::fixed::{clamp, div_floor, mul_wide, ONE, ONE_SQUARED};

verus! {

/// An opaque 24-bit colour.
#[derive(Debug, Copy, Clone, PartialEq, Eq, Structural)]
pub struct Color {
    pub r: u8,
    pub g: u8,
    pub b: u8,
}

/// `image::DynamicImage`, a decoded raster image. The verifier knows nothing
/// of what is inside; the library reaches its pixels only through
/// `texture_width`, `texture_height` and `texel`.
#[verifier::external_type_specification]
#[verifier::external_body]
pub struct ExDynamicImage(DynamicImage);

/// The number of pixel columns of an image: what `DynamicImage::width`
/// returns. It is named, not defined.
pub uninterp spec fn image_width(image: DynamicImage) -> nat;

/// The number of pixel rows of an image: what `DynamicImage::height`
/// returns. It is named, not defined.
pub uninterp spec fn image_height(image: DynamicImage) -> nat;

/// The red, green and blue levels of the pixel of an image at column `x` and
/// row `y`, counted from the top left: what `get_pixel` returns for a
/// position inside the image. It is named, not defined; of a position
/// outside the image nothing is ever said.
pub uninterp spec fn image_texel(image: DynamicImage, x: int, y: int) -> (u8, u8, u8);

/// Calls `image::DynamicImage::width`. Trusted, not proved: the result is
/// the width that `image_width` names.
#[verifier::external_body]
fn texture_width(image: &DynamicImage) -> (w: u32)
    ensures
        w == image_width(*image),
{
    image.width()
}

/// Calls `image::DynamicImage::height`. Trusted, not proved: the result is
/// the height that `image_height` names.
#[verifier::external_body]
fn texture_height(image: &DynamicImage) -> (h: u32)
    ensures
        h == image_height(*image),
{
    image.height()
}

/// Calls `image::GenericImageView::get_pixel` on a `DynamicImage`, which
/// converts the pixel at column `x` and row `y` to 8-bit RGBA and panics for
/// a position outside the image. Trusted, not proved: for a position inside,
/// the red, green and blue levels returned are those that `image_texel`
/// names for it. The alpha level is dropped.
#[verifier::external_body]
fn texel(image: &DynamicImage, x: u32, y: u32) -> (c: Color)
    requires
        x < image_width(*image),
        y < image_height(*image),
    ensures
        (c.r, c.g, c.b) == image_texel(*image, x as int, y as int),
{
    let pixel = image::GenericImageView::get_pixel(image, x, y);
    Color { r: pixel.0[0], g: pixel.0[1], b: pixel.0[2] }
}

/// The grey level, out of 255, of a light intensity between zero and `ONE`.
pub open spec fn level(intensity: int) -> int {
    (255 * intensity) / (ONE as int)
}

/// A channel level lit with `intensity`, rounded down.
pub open spec fn lit(intensity: int, channel: int) -> int {
    (intensity * channel) / (ONE as int)
}

/// The level of a channel that follows a texture coordinate: the coordinate
/// times the full level under `intensity`, kept to the range of a channel.
pub open spec fn coordinate_level(intensity: int, coordinate: int) -> int {
    clamp((255 * intensity * coordinate) / (ONE_SQUARED as int), 0, 255)
}

/// The texel column that the texture coordinate `u` falls into, in an image
/// `width` columns wide: `u * width`, rounded down and kept inside the image.
pub open spec fn texel_column(u: int, width: int) -> int {
    clamp((u * width) / (ONE as int), 0, width - 1)
}

/// The texel row that the texture coordinate `v` falls into, in an image
/// `height` rows high: `height - v * height`, rounded down and kept inside
/// the image. The rows of an image count downward, `v` counts upward.
pub open spec fn texel_row(v: int, height: int) -> int {
    clamp((height * ONE - v * height) / (ONE as int), 0, height - 1)
}

/// Shades every pixel in the grey of the light intensity.
#[derive(Debug, Copy, Clone, PartialEq, Eq, Structural)]
pub struct ShaderFlat {}

/// Shows the texture coordinates: red follows `u`, green follows `v`, blue is
/// constant, all three scaled by the light intensity.
#[derive(Debug, Copy, Clone, PartialEq, Eq, Structural)]
pub struct ShaderUV {}

/// Samples a texture image at the texture coordinates, nearest texel, and
/// scales the texel by the light intensity.
pub struct ShaderDiffuse {
    image: DynamicImage,
}

/// The shading variants, selected once per run.
pub enum PixelShader {
    Flat(ShaderFlat),
    UV(ShaderUV),
    Diffuse(ShaderDiffuse),
}

impl ShaderFlat {
    /// The colour that `render` computes.
    pub open spec fn render_spec(self, u: int, v: int, intensity: int) -> Color {
        Color {
            r: level(intensity) as u8,
            g: level(intensity) as u8,
            b: level(intensity) as u8,
        }
    }

    /// The colour of a pixel: the grey of the light intensity, whatever the
    /// texture coordinates.
    pub fn render(&self, u: i64, v: i64, intensity: i64) -> (c: Color)
        requires
            0 <= intensity <= ONE,
        ensures
            c == self.render_spec(u as int, v as int, intensity as int),
            c.r == level(intensity as int),
            c.g == c.r,
            c.b == c.r,
    {
        let channel = grey(intensity);
        Color { r: channel, g: channel, b: channel }
    }
}

impl ShaderUV {
    /// The colour that `render` computes.
    pub open spec fn render_spec(self, u: int, v: int, intensity: int) -> Color {
        Color {
            r: coordinate_level(intensity, u) as u8,
            g: coordinate_level(intensity, v) as u8,
            b: level(intensity) as u8,
        }
    }

    /// The colour of a pixel: red and green follow `u` and `v`, blue is the
    /// grey of the light intensity.
    pub fn render(&self, u: i64, v: i64, intensity: i64) -> (c: Color)
        requires
            0 <= intensity <= ONE,
        ensures
            c == self.render_spec(u as int, v as int, intensity as int),
            c.r == coordinate_level(intensity as int, u as int),
            c.g == coordinate_level(intensity as int, v as int),
            c.b == level(intensity as int),
    {
        Color {
            r: coordinate_channel(intensity, u),
            g: coordinate_channel(intensity, v),
            b: grey(intensity),
        }
    }
}

impl ShaderDiffuse {
    /// The texture image.
    pub closed spec fn view(&self) -> DynamicImage {
        self.image
    }

    /// The texture holds at least one texel.
    pub open spec fn wf(&self) -> bool {
        image_width(self@) > 0 && image_height(self@) > 0
    }

    /// The texel that the texture coordinates fall on.
    pub open spec fn sample_spec(&self, u: int, v: int) -> (u8, u8, u8) {
        image_texel(
            self@,
            texel_column(u, image_width(self@) as int),
            texel_row(v, image_height(self@) as int),
        )
    }

    /// The colour that `render` computes.
    pub open spec fn render_spec(&self, u: int, v: int, intensity: int) -> Color {
        let t = self.sample_spec(u, v);
        Color {
            r: lit(intensity, t.0 as int) as u8,
            g: lit(intensity, t.1 as int) as u8,
            b: lit(intensity, t.2 as int) as u8,
        }
    }

    /// A shader that samples `image`, or `None` where the image has no
    /// pixels.
    pub fn new(image: DynamicImage) -> (s: Option<ShaderDiffuse>)
        ensures
            s is Some <==> image_width(image) > 0 && image_height(image) > 0,
            s matches Some(shader) ==> shader@ == image && shader.wf(),
    {
        if texture_width(&image) > 0 && texture_height(&image) > 0 {
            Some(ShaderDiffuse { image })
        } else {
            None
        }
    }

    /// The colour of a pixel: the nearest texel, each channel scaled by the
    /// light intensity. Texture coordinates outside the image fall on its
    /// border.
    pub fn render(&self, u: i64, v: i64, intensity: i64) -> (c: Color)
        requires
            self.wf(),
            0 <= intensity <= ONE,
        ensures
            c == self.render_spec(u as int, v as int, intensity as int),
            c.r == lit(intensity as int, self.sample_spec(u as int, v as int).0 as int),
            c.g == lit(intensity as int, self.sample_spec(u as int, v as int).1 as int),
            c.b == lit(intensity as int, self.sample_spec(u as int, v as int).2 as int),
    {
        let (x, y) = texel_position(
            u,
            v,
            texture_width(&self.image),
            texture_height(&self.image),
        );
        let texture = texel(&self.image, x, y);
        light_texel(texture, intensity)
    }
}

/// The column and the row of the texel that the texture coordinates `u`, `v`
/// fall on in an image of the given size: `u * width` and
/// `height - v * height`, rounded down and kept inside the image.
pub fn texel_position(u: i64, v: i64, width: u32, height: u32) -> (at: (u32, u32))
    requires
        width > 0,
        height > 0,
    ensures
        at.0 == texel_column(u as int, width as int),
        at.1 == texel_row(v as int, height as int),
        at.0 < width,
        at.1 < height,
{
    let column = div_floor(mul_wide(u, width as i64), ONE as i128);
    let x: u32 = if column < 0 {
        0
    } else if column > (width - 1) as i128 {
        width - 1
    } else {
        column as u32
    };
    let full = mul_wide(height as i64, ONE);
    let offset = mul_wide(v, height as i64);
    let row = div_floor(full - offset, ONE as i128);
    let y: u32 = if row < 0 {
        0
    } else if row > (height - 1) as i128 {
        height - 1
    } else {
        row as u32
    };
    (x, y)
}

/// A texel under light: each channel scaled by the intensity, rounded down.
pub fn light_texel(texel: Color, intensity: i64) -> (c: Color)
    requires
        0 <= intensity <= ONE,
    ensures
        c.r == lit(intensity as int, texel.r as int),
        c.g == lit(intensity as int, texel.g as int),
        c.b == lit(intensity as int, texel.b as int),
{
    Color {
        r: scale(intensity, texel.r),
        g: scale(intensity, texel.g),
        b: scale(intensity, texel.b),
    }
}

impl PixelShader {
    /// Whether the shader can be run.
    pub open spec fn wf(&self) -> bool {
        match self {
            PixelShader::Diffuse(shader) => shader.wf(),
            _ => true,
        }
    }

    /// The colour that the selected variant gives a pixel.
    pub open spec fn render_spec(&self, u: int, v: int, intensity: int) -> Color {
        match self {
            PixelShader::Flat(shader) => shader.render_spec(u, v, intensity),
            PixelShader::UV(shader) => shader.render_spec(u, v, intensity),
            PixelShader::Diffuse(shader) => shader.render_spec(u, v, intensity),
        }
    }

    /// The colour of a pixel with texture coordinates `u`, `v` under the
    /// light intensity `intensity`.
    pub fn render(&self, u: i64, v: i64, intensity: i64) -> (c: Color)
        requires
            self.wf(),
            0 <= intensity <= ONE,
        ensures
            c == self.render_spec(u as int, v as int, intensity as int),
    {
        match self {
            PixelShader::Flat(shader) => shader.render(u, v, intensity),
            PixelShader::UV(shader) => shader.render(u, v, intensity),
            PixelShader::Diffuse(shader) => shader.render(u, v, intensity),
        }
    }
}

/// The grey level of a light intensity.
fn grey(intensity: i64) -> (c: u8)
    requires
        0 <= intensity <= ONE,
    ensures
        c == level(intensity as int),
{
    ((255 * intensity) / ONE) as u8
}

/// A channel level scaled by a light intensity.
fn scale(intensity: i64, channel: u8) -> (c: u8)
    requires
        0 <= intensity <= ONE,
    ensures
        c == lit(intensity as int, channel as int),
{
    assert(0 <= intensity * channel <= 65536 * 255) by (nonlinear_arith)
        requires
            0 <= intensity <= 65536,
            0 <= channel <= 255,
    ;
    ((intensity * (channel as i64)) / ONE) as u8
}

/// The level of a channel that follows a texture coordinate.
fn coordinate_channel(intensity: i64, coordinate: i64) -> (c: u8)
    requires
        0 <= intensity <= ONE,
    ensures
        c == coordinate_level(intensity as int, coordinate as int),
{
    let scaled = div_floor(mul_wide(255 * intensity, coordinate), ONE_SQUARED as i128);
    if scaled < 0 {
        0
    } else if scaled > 255 {
        255
    } else {
        scaled as u8
    }
}

} // verus!
