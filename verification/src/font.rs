//! What the glyph cache reads from a font face.
//!
//! A face is parsed by `ttf_parser`; the cache only asks it for glyph
//! identifiers and design-unit metrics. Each answer is a function of the
//! face alone and has a name here, so that contracts can speak of it.

use vstd::prelude::*;
use ttf_parser::Face;
use ttf_parser::GlyphId;

verus! {

#[verifier::external_type_specification]
#[verifier::external_body]
pub struct ExFace<'a>(Face<'a>);

#[verifier::external_type_specification]
pub struct ExGlyphId(GlyphId);

/// Why a glyph could not be put into the atlas, or a font not loaded.
#[non_exhaustive]
#[derive(Clone, Copy, Debug, PartialEq, Eq, Structural)]
pub enum SaikoSdfFontError {
    /// The font data could not be read or parsed.
    Io,
    /// The face maps the character to no glyph.
    CharacterNotInFont,
    /// The glyph has no outline, as a space has none.
    OutlineUnavailable,
    /// No free cell of the glyph size is left in the atlas.
    AtlasFull,
    /// No glyph image of the cell size could be framed.
    FramingFailed,
}

impl SaikoSdfFontError {
    /// The description of each error.
    pub open spec fn spec_message(self) -> Seq<char> {
        match self {
            SaikoSdfFontError::Io => "Could not load asset"@,
            SaikoSdfFontError::CharacterNotInFont => "Character is not in the font"@,
            SaikoSdfFontError::OutlineUnavailable => "Glyph has no outline"@,
            SaikoSdfFontError::AtlasFull => "Glyph atlas is full"@,
            SaikoSdfFontError::FramingFailed => "Glyph could not be framed"@,
        }
    }

    /// A short description of the error.
    pub fn message(&self) -> (text: &'static str)
        ensures
            text@ == self.spec_message(),
    {
        match self {
            SaikoSdfFontError::Io => {
                "Could not load asset"
            },
            SaikoSdfFontError::CharacterNotInFont => {
                "Character is not in the font"
            },
            SaikoSdfFontError::OutlineUnavailable => {
                "Glyph has no outline"
            },
            SaikoSdfFontError::AtlasFull => {
                "Glyph atlas is full"
            },
            SaikoSdfFontError::FramingFailed => {
                "Glyph could not be framed"
            },
        }
    }
}

/// A glyph's bounding box in design units.
#[derive(Clone, Copy, Debug, PartialEq, Eq, Structural)]
pub struct GlyphBounds {
    pub x_min: i16,
    pub y_min: i16,
    pub x_max: i16,
    pub y_max: i16,
}

/// What the cache reads of one glyph, in design units.
#[derive(Clone, Copy, Debug, PartialEq, Eq, Structural)]
pub struct FontGlyph {
    /// The glyph's identifier in its face.
    pub id: u16,
    /// Design units per em of the face.
    pub units_per_em: u16,
    /// Tight bounding box of the outline.
    pub bounds: GlyphBounds,
    /// Horizontal advance, zero where the face gives none.
    pub hor_advance: u16,
    /// Vertical advance, zero where the face gives none.
    pub ver_advance: u16,
    /// Vertical origin, zero where the face gives none.
    pub y_origin: i16,
}

/// The glyph that `face` maps `character` to.
pub uninterp spec fn face_glyph_index(face: &Face, character: char) -> Option<u16>;

/// The bounding box of the outline of `glyph` in `face`; `None` where the
/// glyph has no outline.
pub uninterp spec fn face_bounding_box(face: &Face, glyph: u16) -> Option<GlyphBounds>;

/// The horizontal advance of `glyph` in `face`.
pub uninterp spec fn face_hor_advance(face: &Face, glyph: u16) -> Option<u16>;

/// The vertical advance of `glyph` in `face`.
pub uninterp spec fn face_ver_advance(face: &Face, glyph: u16) -> Option<u16>;

/// The vertical origin of `glyph` in `face`.
pub uninterp spec fn face_y_origin(face: &Face, glyph: u16) -> Option<i16>;

/// Design units per em of `face`.
pub uninterp spec fn face_units_per_em(face: &Face) -> u16;

/// `Face::glyph_index`: the glyph for a code point, read from the face's
/// character map.
#[verifier::external_body]
fn glyph_index(face: &Face, character: char) -> (r: Option<GlyphId>)
    ensures
        r matches Some(g) ==> face_glyph_index(face, character) == Some(g.0),
        r is None ==> face_glyph_index(face, character) is None,
{
    face.glyph_index(character)
}

/// `Face::glyph_bounding_box`: the tight bounding box that outlining the
/// glyph yields, `None` where the glyph cannot be outlined.
#[verifier::external_body]
fn glyph_bounding_box(face: &Face, glyph: GlyphId) -> (r: Option<GlyphBounds>)
    ensures
        r == face_bounding_box(face, glyph.0),
{
    face.glyph_bounding_box(glyph).map(
        |b| GlyphBounds { x_min: b.x_min, y_min: b.y_min, x_max: b.x_max, y_max: b.y_max },
    )
}

/// `Face::glyph_hor_advance`.
#[verifier::external_body]
fn glyph_hor_advance(face: &Face, glyph: GlyphId) -> (r: Option<u16>)
    ensures
        r == face_hor_advance(face, glyph.0),
{
    face.glyph_hor_advance(glyph)
}

/// `Face::glyph_ver_advance`.
#[verifier::external_body]
fn glyph_ver_advance(face: &Face, glyph: GlyphId) -> (r: Option<u16>)
    ensures
        r == face_ver_advance(face, glyph.0),
{
    face.glyph_ver_advance(glyph)
}

/// `Face::glyph_y_origin`.
#[verifier::external_body]
fn glyph_y_origin(face: &Face, glyph: GlyphId) -> (r: Option<i16>)
    ensures
        r == face_y_origin(face, glyph.0),
{
    face.glyph_y_origin(glyph)
}

/// `Face::units_per_em`, which a parsed face keeps between 16 and 16384.
#[verifier::external_body]
fn units_per_em(face: &Face) -> (r: u16)
    ensures
        r == face_units_per_em(face),
        16 <= r <= 16384,
{
    face.units_per_em()
}

/// What `face` holds of `glyph`: `None` where the glyph has no outline,
/// else its record with absent advances and origin read as zero.
pub open spec fn spec_read_glyph(face: &Face, glyph: u16) -> Option<FontGlyph> {
    match face_bounding_box(face, glyph) {
        None => None,
        Some(bounds) => Some(
            FontGlyph {
                id: glyph,
                units_per_em: face_units_per_em(face),
                bounds,
                hor_advance: match face_hor_advance(face, glyph) {
                    Some(a) => a,
                    None => 0u16,
                },
                ver_advance: match face_ver_advance(face, glyph) {
                    Some(a) => a,
                    None => 0u16,
                },
                y_origin: match face_y_origin(face, glyph) {
                    Some(y) => y,
                    None => 0i16,
                },
            },
        ),
    }
}

/// What `face` holds for `character`: the glyph's record, or the reason
/// there is none.
pub open spec fn spec_lookup_glyph(face: &Face, character: char) -> Result<
    FontGlyph,
    SaikoSdfFontError,
> {
    match face_glyph_index(face, character) {
        None => Err(SaikoSdfFontError::CharacterNotInFont),
        Some(glyph) => match spec_read_glyph(face, glyph) {
            None => Err(SaikoSdfFontError::OutlineUnavailable),
            Some(record) => Ok(record),
        },
    }
}

/// Reads the record of `glyph` from `face`.
pub fn read_glyph(face: &Face, glyph: GlyphId) -> (r: Option<FontGlyph>)
    ensures
        r == spec_read_glyph(face, glyph.0),
        r matches Some(record) ==> 16 <= record.units_per_em <= 16384,
{
    match glyph_bounding_box(face, glyph) {
        None => None,
        Some(bounds) => {
            let hor_advance = match glyph_hor_advance(face, glyph) {
                Some(a) => a,
                None => 0u16,
            };
            let ver_advance = match glyph_ver_advance(face, glyph) {
                Some(a) => a,
                None => 0u16,
            };
            let y_origin = match glyph_y_origin(face, glyph) {
                Some(y) => y,
                None => 0i16,
            };
            Some(
                FontGlyph {
                    id: glyph.0,
                    units_per_em: units_per_em(face),
                    bounds,
                    hor_advance,
                    ver_advance,
                    y_origin,
                },
            )
        },
    }
}

/// Finds the glyph of `character` in `face` and reads its record.
///
/// Fails with `CharacterNotInFont` where the face has no glyph for the
/// character, and with `OutlineUnavailable` where the glyph has no outline.
pub fn lookup_glyph(face: &Face, character: char) -> (r: Result<FontGlyph, SaikoSdfFontError>)
    ensures
        r == spec_lookup_glyph(face, character),
        r matches Ok(record) ==> 16 <= record.units_per_em <= 16384,
{
    match glyph_index(face, character) {
        None => Err(SaikoSdfFontError::CharacterNotInFont),
        Some(glyph) => match read_glyph(face, glyph) {
            None => Err(SaikoSdfFontError::OutlineUnavailable),
            Some(record) => Ok(record),
        },
    }
}

} // verus!
