use msdfgen::Bitmap;
use msdfgen::FillRule;
use msdfgen::FontExt;
use msdfgen::MsdfGeneratorConfig;
use msdfgen::Range;
use saiko_ui::bitmap::GlyphBitmap;
use saiko_ui::bitmap::Rgb;
use saiko_ui::bitmap::Rgba;
use saiko_ui::font::FontGlyph;
use saiko_ui::font::GlyphBounds;
use saiko_ui::font::SaikoSdfFontError;
use saiko_ui::metrics::GlyphMetrics;
use saiko_ui::metrics::Ratio;
use saiko_ui::sdf::SaikoFontSdf;
use ttf_parser::Face;

fn face() -> Face<'static> {
    Face::parse(notosans::REGULAR_TTF, 0).unwrap()
}

fn rasterize(font: &Face, character: char, size: u32) -> Option<GlyphBitmap> {
    let glyph = font.glyph_index(character)?;
    let mut shape = font.glyph_shape(glyph)?;
    let bound = shape.get_bound();
    let framing = bound.autoframe(size, size, Range::Px(4.0), None)?;
    let mut bitmap = Bitmap::new(size, size);
    shape.edge_coloring_simple(16.0, 0);
    let config = MsdfGeneratorConfig::default();
    shape.generate_msdf(&mut bitmap, framing, config);
    shape.correct_sign(&mut bitmap, &framing, FillRule::default());
    shape.correct_msdf_error(&mut bitmap, framing, config);
    bitmap.flip_y();
    let pixels: Vec<Rgb> = bitmap
        .pixels()
        .iter()
        .map(|p: &msdfgen::Rgb<f32>| Rgb { r: p.r.to_bits(), g: p.g.to_bits(), b: p.b.to_bits() })
        .collect();
    GlyphBitmap::new(size, size, pixels)
}

fn flat_image(size: u32, seed: u32) -> GlyphBitmap {
    let mut pixels = Vec::new();
    for i in 0..size * size {
        pixels.push(Rgb { r: seed + i, g: seed + 2 * i + 1, b: seed ^ i });
    }
    GlyphBitmap::new(size, size, pixels).unwrap()
}

fn sample_glyph(id: u16) -> FontGlyph {
    FontGlyph {
        id,
        units_per_em: 1000,
        bounds: GlyphBounds { x_min: 10, y_min: -20, x_max: 110, y_max: 180 },
        hor_advance: 120,
        ver_advance: 0,
        y_origin: 5,
    }
}

fn blank() -> Rgba {
    Rgba { r: 0, g: 0, b: 0, a: 0 }
}

#[test]
fn new_atlas_is_blank_and_dirty() {
    let atlas = SaikoFontSdf::new(64, 16).unwrap();
    assert_eq!(atlas.atlas_dims(), 64);
    assert_eq!(atlas.glyph_size(), 16);
    assert!(atlas.is_dirty());
    assert_eq!(atlas.allocated_cells(), 0);
    assert_eq!(atlas.pixels().len(), 64 * 64);
    assert!(atlas.pixels().iter().all(|p| *p == blank()));
    assert_eq!(f32::from_bits(atlas.pixel(3, 5).a), 0.0);
    assert_eq!(f32::from_bits(atlas.pixel(3, 5).r), 0.0);
    assert!(atlas.raw_data().iter().all(|byte| *byte == 0));
    assert!(atlas.metrics('A').is_none());
    assert!(!atlas.contains('A'));
}

#[test]
fn atlas_side_must_be_in_range() {
    assert!(SaikoFontSdf::new(0, 16).is_none());
    assert!(SaikoFontSdf::new(32769, 16).is_none());
    assert!(SaikoFontSdf::new(1, 16).is_some());
}

#[test]
fn default_atlas_has_the_usual_size() {
    let atlas = SaikoFontSdf::default();
    assert_eq!(atlas.atlas_dims(), 2048);
    assert_eq!(atlas.glyph_size(), 40);
    assert!(atlas.is_dirty());
    assert_eq!(atlas.allocated_cells(), 0);
    assert_eq!(atlas.pixels().len(), 2048 * 2048);
    assert_eq!(*atlas.pixel(2047, 2047), blank());
}

#[test]
fn end_to_end_two_glyphs() {
    let font = face();
    let mut atlas = SaikoFontSdf::new(256, 32).unwrap();
    let characters = ['A', 'B'];
    let images = [rasterize(&font, 'A', 32), rasterize(&font, 'B', 32)];
    assert!(images[0].is_some() && images[1].is_some());
    atlas.add_glyphs(&font, &characters, &images);
    let a = *atlas.metrics('A').unwrap();
    let b = *atlas.metrics('B').unwrap();
    assert!(atlas.metrics('C').is_none());
    let ra = a.atlas_location().unwrap();
    let rb = b.atlas_location().unwrap();
    assert_eq!((ra.width(), ra.height()), (32, 32));
    assert_eq!((rb.width(), rb.height()), (32, 32));
    assert_ne!(ra, rb);
    assert!(!ra.intersects(&rb));
    assert_ne!(a.allocation.unwrap().id, b.allocation.unwrap().id);
    assert_eq!(atlas.allocated_cells(), 2);
    assert_eq!(atlas.raw_data().len(), 256 * 256 * 16);
    assert!(atlas.is_dirty());
}

#[test]
fn glyph_image_lands_in_its_cell() {
    let font = face();
    let mut atlas = SaikoFontSdf::new(128, 32).unwrap();
    let first = rasterize(&font, 'A', 32).unwrap();
    let second = rasterize(&font, 'Q', 32).unwrap();
    assert!(atlas.add_glyph(&font, 'A', Some(&first)));
    assert!(atlas.add_glyph(&font, 'Q', Some(&second)));
    let cell = atlas.metrics('Q').unwrap().atlas_location().unwrap();
    let other = atlas.metrics('A').unwrap().atlas_location().unwrap();
    let mut differs = false;
    for y in 0..128i32 {
        for x in 0..128i32 {
            let p = *atlas.pixel(x as u32, y as u32);
            assert_eq!(p.a, 0);
            let (image, rect) = if cell.contains(x, y) {
                (&second, cell)
            } else if other.contains(x, y) {
                (&first, other)
            } else {
                assert_eq!(p, blank());
                continue;
            };
            let source = *image.pixel((x - rect.min_x) as u32, (y - rect.min_y) as u32);
            assert_eq!((p.r, p.g, p.b), (source.r, source.g, source.b));
            differs = differs || p != blank();
        }
    }
    assert!(differs);
}

#[test]
fn rasterized_glyph_has_inside_and_outside() {
    let font = face();
    let image = rasterize(&font, 'O', 32).unwrap();
    assert_eq!((image.width(), image.height()), (32, 32));
    let median = |p: &Rgb| {
        let mut v = [f32::from_bits(p.r), f32::from_bits(p.g), f32::from_bits(p.b)];
        v.sort_by(|a, b| a.partial_cmp(b).unwrap());
        v[1]
    };
    let corner = median(image.pixel(0, 0));
    let centre = median(image.pixel(16, 16));
    let mut stroke = false;
    for x in 0..32 {
        stroke = stroke || (median(image.pixel(x, 16)) > 0.5) != (centre > 0.5);
    }
    assert_eq!(corner > 0.5, centre > 0.5);
    assert!(stroke);
}

#[test]
fn add_glyph_twice_changes_nothing() {
    let font = face();
    let mut atlas = SaikoFontSdf::new(256, 32).unwrap();
    let image = rasterize(&font, 'A', 32).unwrap();
    let other = rasterize(&font, 'B', 32).unwrap();
    assert!(atlas.add_glyph(&font, 'A', Some(&image)));
    let metrics = *atlas.metrics('A').unwrap();
    let cells = atlas.allocated_cells();
    let pixels = atlas.pixels().to_vec();
    atlas.reset_dirty();
    assert!(atlas.add_glyph(&font, 'A', Some(&other)));
    assert!(atlas.is_dirty());
    atlas.reset_dirty();
    assert!(atlas.add_glyph(&font, 'A', None));
    assert!(atlas.is_dirty());
    assert_eq!(*atlas.metrics('A').unwrap(), metrics);
    assert_eq!(atlas.allocated_cells(), cells);
    assert_eq!(atlas.allocated_cells(), 1);
    assert_eq!(atlas.pixels(), pixels.as_slice());
}

#[test]
fn cached_character_that_the_face_lacks_gives_false() {
    let font = face();
    let mut atlas = SaikoFontSdf::new(128, 32).unwrap();
    let image = flat_image(32, 5);
    assert!(font.glyph_index('\u{6F22}').is_none());
    atlas.insert_glyph('\u{6F22}', &sample_glyph(9), Some(&image)).unwrap();
    atlas.insert_glyph(' ', &sample_glyph(3), Some(&image)).unwrap();
    let kept = *atlas.metrics('\u{6F22}').unwrap();
    let pixels = atlas.pixels().to_vec();
    atlas.reset_dirty();
    assert!(!atlas.add_glyph(&font, '\u{6F22}', Some(&image)));
    assert!(!atlas.add_glyph(&font, '\u{6F22}', None));
    assert!(!atlas.add_glyph(&font, ' ', Some(&image)));
    assert!(!atlas.is_dirty());
    assert_eq!(*atlas.metrics('\u{6F22}').unwrap(), kept);
    assert_eq!(atlas.allocated_cells(), 2);
    assert_eq!(atlas.pixels(), pixels.as_slice());
}

#[test]
fn every_successful_add_raises_the_flag() {
    let font = face();
    let mut atlas = SaikoFontSdf::new(128, 32).unwrap();
    for character in ['A', 'B', 'A', 'C', 'B'] {
        atlas.reset_dirty();
        let image = rasterize(&font, character, 32);
        assert!(atlas.add_glyph(&font, character, image.as_ref()));
        assert!(atlas.is_dirty());
    }
    assert_eq!(atlas.allocated_cells(), 3);
    atlas.reset_dirty();
    assert!(!atlas.add_glyph(&font, 'D', None));
    assert!(!atlas.is_dirty());
}

#[test]
fn stored_metrics_are_those_of_the_face() {
    let font = face();
    let mut atlas = SaikoFontSdf::new(256, 40).unwrap();
    let image = rasterize(&font, 'g', 40).unwrap();
    assert!(atlas.add_glyph(&font, 'g', Some(&image)));
    let id = font.glyph_index('g').unwrap();
    let bounds = font.glyph_bounding_box(id).unwrap();
    let m = *atlas.metrics('g').unwrap();
    assert_eq!(m.width, bounds.x_max as i32 - bounds.x_min as i32);
    assert_eq!(m.height, bounds.y_max as i32 - bounds.y_min as i32);
    assert_eq!(m.x, bounds.x_min as i32);
    assert_eq!(m.y, bounds.y_min as i32);
    assert!(m.y < 0);
    assert_eq!(m.h_advance, font.glyph_hor_advance(id).unwrap() as i32);
    assert_eq!(m.units_per_em, 2048);
    let cell = m.atlas_location().unwrap();
    assert!(cell.width() >= 40 && cell.height() >= 40);
    assert_eq!(
        m,
        GlyphMetrics::from_glyph(id, &font, m.allocation.unwrap()).unwrap()
    );
}

#[test]
fn absent_character_fails_and_takes_no_cell() {
    let font = face();
    let mut atlas = SaikoFontSdf::new(256, 32).unwrap();
    let image = flat_image(32, 7);
    atlas.reset_dirty();
    let before = atlas.allocated_cells();
    assert!(!atlas.add_glyph(&font, '\u{6F22}', Some(&image)));
    assert_eq!(atlas.allocated_cells(), before);
    assert!(atlas.metrics('\u{6F22}').is_none());
    assert!(!atlas.is_dirty());
    assert!(atlas.pixels().iter().all(|p| *p == blank()));
}

#[test]
fn glyph_without_outline_fails_and_takes_no_cell() {
    let font = face();
    let mut atlas = SaikoFontSdf::new(256, 32).unwrap();
    let image = flat_image(32, 7);
    assert!(rasterize(&font, ' ', 32).is_none());
    assert!(!atlas.add_glyph(&font, ' ', Some(&image)));
    assert!(!atlas.add_glyph(&font, ' ', None));
    assert_eq!(atlas.allocated_cells(), 0);
    assert!(atlas.metrics(' ').is_none());
}

#[test]
fn missing_image_gives_the_cell_back() {
    let font = face();
    let mut atlas = SaikoFontSdf::new(256, 32).unwrap();
    let image = rasterize(&font, 'A', 32).unwrap();
    assert!(atlas.add_glyph(&font, 'A', Some(&image)));
    atlas.reset_dirty();
    assert!(!atlas.add_glyph(&font, 'B', None));
    assert_eq!(atlas.allocated_cells(), 1);
    assert!(atlas.metrics('B').is_none());
    assert!(!atlas.is_dirty());
    let glyph = sample_glyph(4);
    assert_eq!(atlas.insert_glyph('B', &glyph, None), Err(SaikoSdfFontError::FramingFailed));
    assert_eq!(atlas.allocated_cells(), 1);
    let mut free = 0;
    while atlas.insert_glyph(char::from_u32(0x100 + free).unwrap(), &glyph, Some(&image)).is_ok() {
        free += 1;
    }
    assert_eq!(free, 63);
}

#[test]
fn image_of_another_size_is_refused() {
    let font = face();
    let mut atlas = SaikoFontSdf::new(256, 32).unwrap();
    let small = flat_image(16, 1);
    let large = flat_image(40, 1);
    assert!(!atlas.add_glyph(&font, 'A', Some(&small)));
    assert!(!atlas.add_glyph(&font, 'A', Some(&large)));
    assert_eq!(atlas.allocated_cells(), 0);
    assert!(atlas.metrics('A').is_none());
    assert_eq!(
        atlas.insert_glyph('A', &sample_glyph(1), Some(&small)),
        Err(SaikoSdfFontError::FramingFailed)
    );
}

#[test]
fn overflowing_glyph_fails_and_changes_nothing() {
    let mut atlas = SaikoFontSdf::default();
    let image = flat_image(40, 3);
    let glyph = sample_glyph(1);
    let mut added: u32 = 0;
    let mut code: u32 = 0x100;
    loop {
        let character = char::from_u32(code).unwrap();
        match atlas.insert_glyph(character, &glyph, Some(&image)) {
            Ok(cell) => {
                assert!(cell.rectangle.width() >= 40 && cell.rectangle.height() >= 40);
                added += 1;
            }
            Err(e) => {
                assert_eq!(e, SaikoSdfFontError::AtlasFull);
                break;
            }
        }
        code += 1;
        assert!(added <= 2601);
    }
    assert!(added > 0);
    assert_eq!(atlas.allocated_cells(), added);
    let pixels = atlas.pixels().to_vec();
    atlas.reset_dirty();
    let font = face();
    let real = rasterize(&font, 'A', 40);
    assert!(!atlas.add_glyph(&font, 'A', real.as_ref()));
    assert_eq!(atlas.allocated_cells(), added);
    assert!(atlas.metrics('A').is_none());
    assert!(!atlas.is_dirty());
    assert!(atlas.pixels() == pixels.as_slice());
    assert!(atlas.contains('\u{100}'));
}

#[test]
fn cached_glyph_cells_never_overlap() {
    let mut atlas = SaikoFontSdf::new(200, 24).unwrap();
    let image = flat_image(24, 3);
    let glyph = sample_glyph(1);
    let mut characters = Vec::new();
    for code in 0x41u32..0x80 {
        let character = char::from_u32(code).unwrap();
        if atlas.insert_glyph(character, &glyph, Some(&image)).is_ok() {
            characters.push(character);
        }
    }
    assert!(characters.len() > 10);
    for (i, a) in characters.iter().enumerate() {
        let ra = atlas.metrics(*a).unwrap().atlas_location().unwrap();
        assert!(ra.min_x >= 0 && ra.min_y >= 0 && ra.max_x <= 200 && ra.max_y <= 200);
        for b in characters.iter().skip(i + 1) {
            let rb = atlas.metrics(*b).unwrap().atlas_location().unwrap();
            assert!(!ra.intersects(&rb));
        }
    }
}

#[test]
fn glyph_size_that_cannot_fit_fills_nothing() {
    let font = face();
    let mut wide = SaikoFontSdf::new(32, 40).unwrap();
    let image = flat_image(40, 3);
    assert!(!wide.add_glyph(&font, 'A', Some(&image)));
    assert_eq!(
        wide.insert_glyph('A', &sample_glyph(1), Some(&image)),
        Err(SaikoSdfFontError::AtlasFull)
    );
    let mut none = SaikoFontSdf::new(32, 0).unwrap();
    let empty = GlyphBitmap::new(0, 0, Vec::new()).unwrap();
    assert_eq!(
        none.insert_glyph('A', &sample_glyph(1), Some(&empty)),
        Err(SaikoSdfFontError::AtlasFull)
    );
    assert_eq!(none.allocated_cells(), 0);
}

#[test]
fn insert_glyph_returns_the_cell_of_a_cached_character() {
    let mut atlas = SaikoFontSdf::new(128, 32).unwrap();
    let image = flat_image(32, 3);
    let cell = atlas.insert_glyph('x', &sample_glyph(1), Some(&image)).unwrap();
    let pixels = atlas.pixels().to_vec();
    atlas.reset_dirty();
    assert_eq!(atlas.insert_glyph('x', &sample_glyph(2), None), Ok(cell));
    assert!(atlas.is_dirty());
    assert_eq!(atlas.pixels(), pixels.as_slice());
    assert_eq!(atlas.metrics('x').unwrap().allocation, Some(cell));
    assert_eq!(atlas.metrics('x').unwrap().width, 100);
    assert_eq!(atlas.allocated_cells(), 1);
}

#[test]
fn first_glyph_of_an_empty_atlas_is_always_added() {
    let font = face();
    for (dims, size) in [(32u32, 32u32), (33, 8), (256, 40), (40, 40), (5, 5)] {
        let mut atlas = SaikoFontSdf::new(dims, size).unwrap();
        let image = rasterize(&font, 'A', size).unwrap();
        assert!(atlas.add_glyph(&font, 'A', Some(&image)));
        assert_eq!(atlas.allocated_cells(), 1);
    }
}

#[test]
fn clone_keeps_the_whole_state() {
    let font = face();
    let mut atlas = SaikoFontSdf::new(128, 32).unwrap();
    let image = rasterize(&font, 'A', 32).unwrap();
    assert!(atlas.add_glyph(&font, 'A', Some(&image)));
    atlas.reset_dirty();
    let mut copy = atlas.clone();
    assert_eq!(copy.pixels(), atlas.pixels());
    assert_eq!(copy.metrics('A'), atlas.metrics('A'));
    assert_eq!(copy.allocated_cells(), 1);
    assert!(!copy.is_dirty());
    let other = rasterize(&font, 'B', 32).unwrap();
    assert!(copy.add_glyph(&font, 'B', Some(&other)));
    assert!(atlas.metrics('B').is_none());
    assert_eq!(atlas.allocated_cells(), 1);
    let a = copy.metrics('A').unwrap().atlas_location().unwrap();
    let b = copy.metrics('B').unwrap().atlas_location().unwrap();
    assert!(!a.intersects(&b));
}

#[test]
fn dirty_flag_follows_changes() {
    let font = face();
    let mut atlas = SaikoFontSdf::new(128, 32).unwrap();
    assert!(atlas.is_dirty());
    atlas.reset_dirty();
    assert!(!atlas.is_dirty());
    let image = rasterize(&font, 'A', 32).unwrap();
    assert!(atlas.add_glyph(&font, 'A', Some(&image)));
    assert!(atlas.is_dirty());
    atlas.reset_dirty();
    assert!(!atlas.is_dirty());
    let _ = atlas.metrics('A');
    let _ = atlas.metrics_map(&['A', ' ']);
    let _ = atlas.raw_data();
    let _ = atlas.pixel(0, 0);
    assert!(!atlas.is_dirty());
    atlas.set_pixel(5, 6, Rgba { r: 1, g: 2, b: 3, a: 4 });
    assert!(atlas.is_dirty());
    assert_eq!(*atlas.pixel(5, 6), Rgba { r: 1, g: 2, b: 3, a: 4 });
    assert_eq!(atlas.pixels()[6 * 128 + 5], Rgba { r: 1, g: 2, b: 3, a: 4 });
}

#[test]
fn add_glyphs_skips_cached_and_goes_on_after_failures() {
    let font = face();
    let mut atlas = SaikoFontSdf::new(256, 32).unwrap();
    let a = rasterize(&font, 'A', 32).unwrap();
    assert!(atlas.add_glyph(&font, 'A', Some(&a)));
    let kept = *atlas.metrics('A').unwrap();
    let characters = ['A', '\u{6F22}', ' ', 'B', 'C', 'B', 'D'];
    let images = [
        rasterize(&font, 'Z', 32),
        Some(flat_image(32, 1)),
        Some(flat_image(32, 2)),
        rasterize(&font, 'B', 32),
        None,
        rasterize(&font, 'X', 32),
        rasterize(&font, 'D', 32),
    ];
    atlas.add_glyphs(&font, &characters, &images);
    assert_eq!(*atlas.metrics('A').unwrap(), kept);
    assert!(atlas.metrics('\u{6F22}').is_none());
    assert!(atlas.metrics(' ').is_none());
    assert!(atlas.metrics('C').is_none());
    assert!(atlas.contains('B'));
    assert!(atlas.contains('D'));
    assert_eq!(atlas.allocated_cells(), 3);
    let cell = atlas.metrics('B').unwrap().atlas_location().unwrap();
    let b = rasterize(&font, 'B', 32).unwrap();
    for (x, y) in [(0u32, 0u32), (10, 20), (31, 31)] {
        let p = atlas.pixel(cell.min_x as u32 + x, cell.min_y as u32 + y);
        assert_eq!(p.r, b.pixel(x, y).r);
        assert_eq!(p.g, b.pixel(x, y).g);
    }
}

#[test]
fn metrics_map_makes_up_the_space() {
    let font = face();
    let mut atlas = SaikoFontSdf::new(256, 32).unwrap();
    let a = rasterize(&font, 'A', 32).unwrap();
    assert!(atlas.add_glyph(&font, 'A', Some(&a)));
    let cells = atlas.allocated_cells();
    let map = atlas.metrics_map(&[' ']);
    assert_eq!(map.len(), 1);
    let space = map[&(' ' as u32)];
    assert_eq!(space, GlyphMetrics::space(1, 10));
    assert_eq!(space.width(32), Ratio { num: 0, den: 10 });
    assert_eq!(space.height(32), Ratio { num: 0, den: 10 });
    assert_eq!(space.h_advance(32), Ratio { num: 32, den: 10 });
    assert_ne!(space.h_advance, 0);
    assert!(space.atlas_location().is_none());
    assert_eq!(atlas.allocated_cells(), cells);
    assert!(atlas.metrics(' ').is_none());
}

#[test]
fn metrics_map_holds_the_cached_characters_once() {
    let font = face();
    let mut atlas = SaikoFontSdf::new(256, 32).unwrap();
    let a = rasterize(&font, 'A', 32).unwrap();
    let b = rasterize(&font, 'B', 32).unwrap();
    assert!(atlas.add_glyph(&font, 'A', Some(&a)));
    assert!(atlas.add_glyph(&font, 'B', Some(&b)));
    let map = atlas.metrics_map(&['B', 'x', ' ', 'A', 'B', ' ']);
    assert_eq!(map.len(), 3);
    assert_eq!(map[&('A' as u32)], *atlas.metrics('A').unwrap());
    assert_eq!(map[&('B' as u32)], *atlas.metrics('B').unwrap());
    assert_eq!(map[&32], GlyphMetrics::space(1, 10));
    assert!(!map.contains_key(&('x' as u32)));
    assert!(atlas.metrics_map(&[]).is_empty());
}

#[test]
fn char_width_is_the_scaled_advance() {
    let mut atlas = SaikoFontSdf::new(128, 32).unwrap();
    let image = flat_image(32, 3);
    atlas.insert_glyph('x', &sample_glyph(1), Some(&image)).unwrap();
    assert_eq!(atlas.char_width('x', 20), Ratio { num: 2400, den: 1000 });
    assert_eq!(atlas.char_width(' ', 20), Ratio { num: 20, den: 10 });
    assert_eq!(atlas.char_width('y', 20), Ratio { num: 0, den: 1 });
}

#[test]
fn raw_data_is_little_endian_channel_by_channel() {
    let mut atlas = SaikoFontSdf::new(2, 1).unwrap();
    atlas.set_pixel(1, 0, Rgba { r: 0x0403_0201, g: 0x0807_0605, b: 0x3F00_0000, a: 0xFFFE_FDFC });
    let bytes = atlas.raw_data();
    assert_eq!(bytes.len(), 2 * 2 * 16);
    assert_eq!(&bytes[0..16], &[0u8; 16]);
    assert_eq!(
        &bytes[16..32],
        &[1, 2, 3, 4, 5, 6, 7, 8, 0, 0, 0, 0x3F, 0xFC, 0xFD, 0xFE, 0xFF]
    );
    assert_eq!(&bytes[12..16], &0.0f32.to_le_bytes());
    assert_eq!(&bytes[24..28], &0.5f32.to_le_bytes());
}

#[test]
fn glyph_bitmap_needs_one_pixel_per_position() {
    assert!(GlyphBitmap::new(2, 3, vec![Rgb { r: 0, g: 0, b: 0 }; 6]).is_some());
    assert!(GlyphBitmap::new(2, 3, vec![Rgb { r: 0, g: 0, b: 0 }; 5]).is_none());
    assert!(GlyphBitmap::new(0, 3, Vec::new()).is_some());
    let image = flat_image(4, 100);
    assert_eq!(*image.pixel(1, 2), Rgb { r: 109, g: 119, b: 100 ^ 9 });
    assert_eq!(Rgba::blank(), blank());
    assert_eq!(blank().with_rgb(&Rgb { r: 1, g: 2, b: 3 }), Rgba { r: 1, g: 2, b: 3, a: 0 });
    assert_eq!(
        Rgba { r: 9, g: 9, b: 9, a: 7 }.with_rgb(&Rgb { r: 1, g: 2, b: 3 }),
        Rgba { r: 1, g: 2, b: 3, a: 7 }
    );
}

#[test]
fn add_glyphs_takes_one_step_for_each_character() {
    let font = face();
    let characters = ['A', ' ', 'B', 'A', '\u{6F22}', 'C', 'D'];
    let images = [
        rasterize(&font, 'A', 32),
        Some(flat_image(32, 1)),
        rasterize(&font, 'B', 32),
        None,
        Some(flat_image(32, 2)),
        Some(flat_image(16, 3)),
        rasterize(&font, 'D', 32),
    ];
    let mut batch = SaikoFontSdf::new(128, 32).unwrap();
    batch.reset_dirty();
    let mut single = batch.clone();
    batch.add_glyphs(&font, &characters, &images);
    let mut results = Vec::new();
    for (character, image) in characters.iter().zip(images.iter()) {
        if single.contains(*character) {
            results.push(None);
        } else {
            results.push(Some(single.add_glyph(&font, *character, image.as_ref())));
        }
    }
    assert_eq!(
        results,
        vec![Some(true), Some(false), Some(true), None, Some(false), Some(false), Some(true)]
    );
    assert_eq!(batch.pixels(), single.pixels());
    assert_eq!(batch.allocated_cells(), single.allocated_cells());
    assert_eq!(batch.allocated_cells(), 3);
    assert_eq!(batch.is_dirty(), single.is_dirty());
    assert!(batch.is_dirty());
    for character in characters {
        assert_eq!(batch.metrics(character), single.metrics(character));
    }
    let mut untouched = SaikoFontSdf::new(128, 32).unwrap();
    untouched.reset_dirty();
    untouched.add_glyphs(&font, &[], &[]);
    assert!(!untouched.is_dirty());
    assert_eq!(untouched.allocated_cells(), 0);
}

#[test]
fn add_glyphs_skips_cached_characters_without_touching_the_flag() {
    let font = face();
    let mut atlas = SaikoFontSdf::new(128, 32).unwrap();
    let a = rasterize(&font, 'A', 32);
    atlas.add_glyphs(&font, &['A'], &[a.clone()]);
    assert!(atlas.contains('A'));
    let pixels = atlas.pixels().to_vec();
    atlas.reset_dirty();
    atlas.add_glyphs(&font, &['A', 'A'], &[a.clone(), None]);
    assert!(!atlas.is_dirty());
    assert_eq!(atlas.allocated_cells(), 1);
    assert_eq!(atlas.pixels(), pixels.as_slice());
    assert!(atlas.add_glyph(&font, 'A', None));
    assert!(atlas.is_dirty());
}

#[test]
fn add_glyphs_takes_a_missing_image_as_absent() {
    let font = face();
    let mut atlas = SaikoFontSdf::new(128, 32).unwrap();
    atlas.reset_dirty();
    atlas.add_glyphs(&font, &['A', 'B', 'C'], &[rasterize(&font, 'A', 32)]);
    assert!(atlas.contains('A'));
    assert!(!atlas.contains('B'));
    assert!(!atlas.contains('C'));
    assert_eq!(atlas.allocated_cells(), 1);
    let mut other = SaikoFontSdf::new(128, 32).unwrap();
    other.reset_dirty();
    other.add_glyphs(&font, &['A'], &[]);
    assert!(!other.contains('A'));
    assert!(!other.is_dirty());
    other.add_glyphs(&font, &['A'], &[rasterize(&font, 'A', 32), rasterize(&font, 'B', 32)]);
    assert!(other.contains('A'));
    assert!(!other.contains('B'));
}
