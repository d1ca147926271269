//! Pixels and glyph images.
//!
//! A channel is a 32-bit float kept as its bit pattern, so that pixels can
//! be copied and compared exactly.

use vstd::prelude::*;

verus! {

/// The bit pattern of the float `0.0`.
pub const CHANNEL_ZERO: u32 = 0;

/// Bytes that one atlas pixel takes in the raw buffer.
pub const PIXEL_BYTES: usize = 16;

/// A pixel of a glyph image: three distance channels.
#[derive(Clone, Copy, Debug, PartialEq, Eq, Structural)]
pub struct Rgb {
    pub r: u32,
    pub g: u32,
    pub b: u32,
}

/// A pixel of the atlas: three distance channels and alpha.
#[derive(Clone, Copy, Debug, PartialEq, Eq, Structural)]
pub struct Rgba {
    pub r: u32,
    pub g: u32,
    pub b: u32,
    pub a: u32,
}

impl Rgba {
    /// The pixel of an atlas that holds no glyph yet: every channel zero.
    pub open spec fn spec_blank() -> Rgba {
        Rgba { r: CHANNEL_ZERO, g: CHANNEL_ZERO, b: CHANNEL_ZERO, a: CHANNEL_ZERO }
    }

    /// This pixel with its distance channels taken from `source`.
    pub open spec fn spec_with_rgb(self, source: Rgb) -> Rgba {
        Rgba { r: source.r, g: source.g, b: source.b, a: self.a }
    }

    /// The pixel of an atlas that holds no glyph yet.
    pub fn blank() -> (p: Rgba)
        ensures
            p == Self::spec_blank(),
    {
        Rgba { r: CHANNEL_ZERO, g: CHANNEL_ZERO, b: CHANNEL_ZERO, a: CHANNEL_ZERO }
    }

    /// Replaces the distance channels and keeps alpha.
    pub fn with_rgb(&self, source: &Rgb) -> (p: Rgba)
        ensures
            p == self.spec_with_rgb(*source),
    {
        Rgba { r: source.r, g: source.g, b: source.b, a: self.a }
    }
}

/// The image of one glyph: `width * height` pixels in rows from the top.
#[derive(Clone, Debug)]
pub struct GlyphBitmap {
    width: u32,
    height: u32,
    pixels: Vec<Rgb>,
}

impl GlyphBitmap {
    /// Width in pixels.
    pub closed spec fn spec_width(&self) -> int {
        self.width as int
    }

    /// Height in pixels.
    pub closed spec fn spec_height(&self) -> int {
        self.height as int
    }

    /// The pixels, row by row.
    pub closed spec fn view(&self) -> Seq<Rgb> {
        self.pixels@
    }

    /// The image holds one pixel for each position.
    pub closed spec fn wf(&self) -> bool {
        self.pixels@.len() == self.width * self.height
    }

    /// What a consistent image guarantees.
    pub proof fn lemma_wf(&self)
        requires
            self.wf(),
        ensures
            self@.len() == self.spec_width() * self.spec_height(),
            0 <= self.spec_width() <= u32::MAX,
            0 <= self.spec_height() <= u32::MAX,
    {
    }

    /// An image of `width` by `height` pixels, or `None` where `pixels`
    /// does not hold exactly that many.
    pub fn new(width: u32, height: u32, pixels: Vec<Rgb>) -> (r: Option<GlyphBitmap>)
        ensures
            r is Some <==> pixels@.len() == width * height,
            r matches Some(image) ==> {
                &&& image.wf()
                &&& image.spec_width() == width
                &&& image.spec_height() == height
                &&& image@ == pixels@
            },
    {
        assert(0 <= width * height <= 0xFFFF_FFFF * 0xFFFF_FFFF) by (nonlinear_arith)
            requires
                0 <= width <= 0xFFFF_FFFF,
                0 <= height <= 0xFFFF_FFFF,
        ;
        if pixels.len() as u64 == width as u64 * height as u64 {
            Some(GlyphBitmap { width, height, pixels })
        } else {
            None
        }
    }

    /// Width in pixels.
    pub fn width(&self) -> (w: u32)
        ensures
            w == self.spec_width(),
    {
        self.width
    }

    /// Height in pixels.
    pub fn height(&self) -> (h: u32)
        ensures
            h == self.spec_height(),
    {
        self.height
    }

    /// The pixel in column `x` of row `y`.
    pub fn pixel(&self, x: u32, y: u32) -> (p: &Rgb)
        requires
            self.wf(),
            x < self.spec_width(),
            y < self.spec_height(),
        ensures
            0 <= y * self.spec_width() + x < self@.len(),
            *p == self@[y * self.spec_width() + x],
    {
        let len = self.pixels.len();
        proof {
            lemma_index_in_grid(x as int, y as int, self.width as int, self.height as int);
            assert(y * self.width + x < len);
        }
        &self.pixels[y as usize * self.width as usize + x as usize]
    }
}

/// A position in a `width` by `height` grid has its index in the grid,
/// and the index gives the position back.
pub proof fn lemma_index_in_grid(x: int, y: int, width: int, height: int)
    requires
        0 <= x < width,
        0 <= y < height,
    ensures
        0 <= y * width <= y * width + x < width * height,
        (y * width + x) / width == y,
        (y * width + x) % width == x,
{
    assert(0 <= y * width) by (nonlinear_arith)
        requires
            0 <= y,
            0 <= width,
    ;
    assert(y * width + width <= height * width) by (nonlinear_arith)
        requires
            y + 1 <= height,
            0 <= width,
    ;
    assert(height * width == width * height) by (nonlinear_arith);
    vstd::arithmetic::div_mod::lemma_fundamental_div_mod_converse(y * width + x, width, y, x);
}

} // verus!
