use saiko_ui::allocator::Allocation;
use saiko_ui::font::FontGlyph;
use saiko_ui::font::GlyphBounds;
use saiko_ui::geometry::CellRect;
use saiko_ui::metrics::GlyphMetrics;
use saiko_ui::metrics::Ratio;

fn sample_glyph() -> FontGlyph {
    FontGlyph {
        id: 36,
        units_per_em: 1000,
        bounds: GlyphBounds { x_min: 10, y_min: -20, x_max: 110, y_max: 180 },
        hor_advance: 120,
        ver_advance: 7,
        y_origin: 5,
    }
}

fn sample_cell() -> Allocation {
    Allocation { id: 3, rectangle: CellRect { min_x: 40, min_y: 48, max_x: 80, max_y: 96 } }
}

fn value(r: Ratio) -> f64 {
    r.num as f64 / r.den as f64
}

#[test]
fn metrics_come_from_the_glyph_record() {
    let m = GlyphMetrics::from_font_glyph(&sample_glyph(), sample_cell());
    assert_eq!(m.width, 100);
    assert_eq!(m.height, 200);
    assert_eq!(m.x, 10);
    assert_eq!(m.y, -15);
    assert_eq!(m.h_advance, 120);
    assert_eq!(m.v_advance, 7);
    assert_eq!(m.units_per_em, 1000);
    assert_eq!(m.allocation, Some(sample_cell()));
    assert_eq!(m.atlas_location(), Some(sample_cell().rectangle));
}

#[test]
fn metrics_of_extreme_bounds_do_not_overflow() {
    let glyph = FontGlyph {
        id: 1,
        units_per_em: 16384,
        bounds: GlyphBounds { x_min: i16::MIN, y_min: i16::MIN, x_max: i16::MAX, y_max: i16::MAX },
        hor_advance: u16::MAX,
        ver_advance: u16::MAX,
        y_origin: i16::MIN,
    };
    let m = GlyphMetrics::from_font_glyph(&glyph, sample_cell());
    assert_eq!(m.width, 65535);
    assert_eq!(m.height, 65535);
    assert_eq!(m.y, -65536);
    assert_eq!(m.h_advance, 65535);
    assert_eq!(m.width(u32::MAX), Ratio { num: 65535 * (u32::MAX as i64), den: 16384 });
}

#[test]
fn scaling_multiplies_by_the_text_height() {
    let m = GlyphMetrics::from_font_glyph(&sample_glyph(), sample_cell());
    assert_eq!(m.width(32), Ratio { num: 3200, den: 1000 });
    assert_eq!(m.height(32), Ratio { num: 6400, den: 1000 });
    assert_eq!(m.x(32), Ratio { num: 320, den: 1000 });
    assert_eq!(m.y(32), Ratio { num: -480, den: 1000 });
    assert_eq!(m.h_advance(32), Ratio { num: 3840, den: 1000 });
    assert_eq!(m.v_advance(32), Ratio { num: 224, den: 1000 });
    assert_eq!(m.width(0), Ratio { num: 0, den: 1000 });
}

#[test]
fn scaled_metric_over_size_does_not_depend_on_size() {
    let m = GlyphMetrics::from_font_glyph(&sample_glyph(), sample_cell());
    for (s1, s2) in [(1u32, 2u32), (12, 96), (32, 33), (7, 4_000_000)] {
        let a = m.h_advance(s1);
        let b = m.h_advance(s2);
        assert_eq!(
            a.num as i128 * (b.den as i128 * s2 as i128),
            b.num as i128 * (a.den as i128 * s1 as i128)
        );
        assert!((value(a) / s1 as f64 - value(b) / s2 as f64).abs() < 1e-12);
        assert!((value(a) / s1 as f64 - 0.12).abs() < 1e-12);
    }
}

#[test]
fn space_has_no_extent_and_no_cell() {
    let m = GlyphMetrics::space(1, 10);
    assert_eq!(m.width, 0);
    assert_eq!(m.height, 0);
    assert_eq!(m.x, 0);
    assert_eq!(m.y, 0);
    assert_eq!(m.v_advance, 0);
    assert_eq!(m.h_advance, 1);
    assert_eq!(m.units_per_em, 10);
    assert_eq!(m.atlas_location(), None);
    assert_eq!(m.h_advance(40), Ratio { num: 40, den: 10 });
    assert_eq!(m.width(40), Ratio { num: 0, den: 10 });
}
