//! Resolution-independent glyph metrics.
//!
//! A metric is kept as a ratio of the font's em: a count of design units
//! over the units per em. Scaling to a pixel size multiplies the count and
//! keeps the denominator, so every query is exact.

use vstd::prelude::*;
use ttf_parser::Face;
use ttf_parser::GlyphId;
use crate::allocator::Allocation;
use crate::font::read_glyph;
use crate::font::spec_read_glyph;
use crate::font::FontGlyph;
use crate::geometry::CellRect;

verus! {

/// An exact fraction `num / den`.
#[derive(Clone, Copy, Debug, PartialEq, Eq, Structural)]
pub struct Ratio {
    pub num: i64,
    pub den: i64,
}

/// The fractions `n1 / d1` and `n2 / d2` have the same value.
pub open spec fn ratio_eq(n1: int, d1: int, n2: int, d2: int) -> bool {
    n1 * d2 == n2 * d1
}

/// `units` design units at a text height of `target_height` pixels, as a
/// fraction of `units_per_em`.
pub open spec fn spec_scaled(units: i32, units_per_em: i32, target_height: u32) -> Ratio {
    Ratio { num: (units * target_height) as i64, den: units_per_em as i64 }
}

/// Scales `units` design units to a text height of `target_height` pixels.
fn scaled(units: i32, units_per_em: i32, target_height: u32) -> (r: Ratio)
    ensures
        r == spec_scaled(units, units_per_em, target_height),
        r.num == units * target_height,
        r.den == units_per_em,
{
    assert(-0x8000_0000 * 0xFFFF_FFFF <= units * target_height <= 0x7FFF_FFFF * 0xFFFF_FFFF)
        by (nonlinear_arith)
        requires
            -0x8000_0000 <= units <= 0x7FFF_FFFF,
            0 <= target_height <= 0xFFFF_FFFF,
    ;
    Ratio { num: units as i64 * target_height as i64, den: units_per_em as i64 }
}

/// The metrics of one glyph, each a count of design units over the units
/// per em of its font, with the atlas cell that holds the glyph's image.
#[derive(Clone, Copy, Debug, PartialEq, Eq, Structural)]
pub struct GlyphMetrics {
    /// Width of the outline's bounding box.
    pub width: i32,
    /// Height of the outline's bounding box.
    pub height: i32,
    /// Left edge of the bounding box, from the glyph origin.
    pub x: i32,
    /// Bottom edge of the bounding box, raised by the vertical origin.
    pub y: i32,
    /// Horizontal advance.
    pub h_advance: i32,
    /// Vertical advance.
    pub v_advance: i32,
    /// The denominator of every metric: design units per em.
    pub units_per_em: i32,
    /// The cell of the glyph's image; `None` for a glyph without image.
    pub allocation: Option<Allocation>,
}

impl GlyphMetrics {
    /// The metrics of a blank glyph that advances by `advance / units_per_em`
    /// of the text height.
    pub open spec fn spec_space(advance: i32, units_per_em: i32) -> GlyphMetrics {
        GlyphMetrics {
            width: 0,
            height: 0,
            x: 0,
            y: 0,
            h_advance: advance,
            v_advance: 0,
            units_per_em,
            allocation: None,
        }
    }

    /// The metrics that the record `glyph` gives, for an image in `cell`.
    pub open spec fn spec_from_font_glyph(glyph: FontGlyph, cell: Allocation) -> GlyphMetrics {
        GlyphMetrics {
            width: (glyph.bounds.x_max - glyph.bounds.x_min) as i32,
            height: (glyph.bounds.y_max - glyph.bounds.y_min) as i32,
            x: glyph.bounds.x_min as i32,
            y: (glyph.bounds.y_min + glyph.y_origin) as i32,
            h_advance: glyph.hor_advance as i32,
            v_advance: glyph.ver_advance as i32,
            units_per_em: glyph.units_per_em as i32,
            allocation: Some(cell),
        }
    }

    /// Metrics of a glyph without image: no extent, and a horizontal
    /// advance of `advance / units_per_em` of the text height.
    pub fn space(advance: i32, units_per_em: i32) -> (m: GlyphMetrics)
        ensures
            m == Self::spec_space(advance, units_per_em),
    {
        GlyphMetrics {
            width: 0,
            height: 0,
            x: 0,
            y: 0,
            h_advance: advance,
            v_advance: 0,
            units_per_em,
            allocation: None,
        }
    }

    /// Metrics from a glyph's record, for an image in `cell`.
    pub fn from_font_glyph(glyph: &FontGlyph, cell: Allocation) -> (m: GlyphMetrics)
        ensures
            m == Self::spec_from_font_glyph(*glyph, cell),
    {
        GlyphMetrics {
            width: glyph.bounds.x_max as i32 - glyph.bounds.x_min as i32,
            height: glyph.bounds.y_max as i32 - glyph.bounds.y_min as i32,
            x: glyph.bounds.x_min as i32,
            y: glyph.bounds.y_min as i32 + glyph.y_origin as i32,
            h_advance: glyph.hor_advance as i32,
            v_advance: glyph.ver_advance as i32,
            units_per_em: glyph.units_per_em as i32,
            allocation: Some(cell),
        }
    }

    /// Metrics of `glyph` as `font` holds it, for an image in `cell`; `None`
    /// where the glyph has no outline.
    pub fn from_glyph(glyph: GlyphId, font: &Face, cell: Allocation) -> (r: Option<GlyphMetrics>)
        ensures
            r == match spec_read_glyph(font, glyph.0) {
                Some(record) => Some(Self::spec_from_font_glyph(record, cell)),
                None => None,
            },
    {
        match read_glyph(font, glyph) {
            Some(record) => Some(Self::from_font_glyph(&record, cell)),
            None => None,
        }
    }

    /// Width of the glyph at a text height of `target_height` pixels.
    pub fn width(&self, target_height: u32) -> (r: Ratio)
        ensures
            r == spec_scaled(self.width, self.units_per_em, target_height),
            r.num == self.width * target_height,
            r.den == self.units_per_em,
    {
        scaled(self.width, self.units_per_em, target_height)
    }

    /// Height of the glyph at a text height of `target_height` pixels.
    pub fn height(&self, target_height: u32) -> (r: Ratio)
        ensures
            r == spec_scaled(self.height, self.units_per_em, target_height),
            r.num == self.height * target_height,
            r.den == self.units_per_em,
    {
        scaled(self.height, self.units_per_em, target_height)
    }

    /// Horizontal bearing at a text height of `target_height` pixels.
    pub fn x(&self, target_height: u32) -> (r: Ratio)
        ensures
            r == spec_scaled(self.x, self.units_per_em, target_height),
            r.num == self.x * target_height,
            r.den == self.units_per_em,
    {
        scaled(self.x, self.units_per_em, target_height)
    }

    /// Vertical bearing at a text height of `target_height` pixels.
    pub fn y(&self, target_height: u32) -> (r: Ratio)
        ensures
            r == spec_scaled(self.y, self.units_per_em, target_height),
            r.num == self.y * target_height,
            r.den == self.units_per_em,
    {
        scaled(self.y, self.units_per_em, target_height)
    }

    /// Horizontal advance at a text height of `target_height` pixels.
    pub fn h_advance(&self, target_height: u32) -> (r: Ratio)
        ensures
            r == spec_scaled(self.h_advance, self.units_per_em, target_height),
            r.num == self.h_advance * target_height,
            r.den == self.units_per_em,
    {
        scaled(self.h_advance, self.units_per_em, target_height)
    }

    /// Vertical advance at a text height of `target_height` pixels.
    pub fn v_advance(&self, target_height: u32) -> (r: Ratio)
        ensures
            r == spec_scaled(self.v_advance, self.units_per_em, target_height),
            r.num == self.v_advance * target_height,
            r.den == self.units_per_em,
    {
        scaled(self.v_advance, self.units_per_em, target_height)
    }

    /// The atlas rectangle of the glyph's image.
    pub fn atlas_location(&self) -> (r: Option<CellRect>)
        ensures
            r == match self.allocation {
                Some(cell) => Some(cell.rectangle),
                None => None,
            },
    {
        match self.allocation {
            Some(cell) => Some(cell.rectangle),
            None => None,
        }
    }
}

/// Scale invariance: a metric scaled to a size and divided by that size is
/// the stored ratio, whatever the size; so two sizes give equal quotients.
pub proof fn lemma_scale_invariance(units: i32, units_per_em: i32, s1: u32, s2: u32)
    requires
        s1 > 0,
        s2 > 0,
    ensures
        ratio_eq(
            spec_scaled(units, units_per_em, s1).num as int,
            spec_scaled(units, units_per_em, s1).den * s1,
            units as int,
            units_per_em as int,
        ),
        ratio_eq(
            spec_scaled(units, units_per_em, s1).num as int,
            spec_scaled(units, units_per_em, s1).den * s1,
            spec_scaled(units, units_per_em, s2).num as int,
            spec_scaled(units, units_per_em, s2).den * s2,
        ),
{
    let n = units as int;
    let d = units_per_em as int;
    let a = s1 as int;
    let b = s2 as int;
    assert(-0x8000_0000 * 0xFFFF_FFFF <= n * a <= 0x7FFF_FFFF * 0xFFFF_FFFF) by (nonlinear_arith)
        requires
            -0x8000_0000 <= n <= 0x7FFF_FFFF,
            0 <= a <= 0xFFFF_FFFF,
    ;
    assert(-0x8000_0000 * 0xFFFF_FFFF <= n * b <= 0x7FFF_FFFF * 0xFFFF_FFFF) by (nonlinear_arith)
        requires
            -0x8000_0000 <= n <= 0x7FFF_FFFF,
            0 <= b <= 0xFFFF_FFFF,
    ;
    assert(spec_scaled(units, units_per_em, s1).num == n * a);
    assert(spec_scaled(units, units_per_em, s2).num == n * b);
    assert((n * a) * d == n * (d * a)) by (nonlinear_arith);
    assert((n * a) * (d * b) == (n * b) * (d * a)) by (nonlinear_arith);
}

} // verus!
