use font_metrics::density::{
    font_darkness_fits, measure_font_darkness, measure_glyph_darkness, GlyphRasterization,
    PixelSample, COVERAGE_ONE,
};
use font_metrics::errors::MetricsError;
use font_metrics::geometry::BoundingBox;
use font_metrics::ratio::Ratio;

/// A 10x10 grid of samples where the left half is fully inked and the
/// right half is empty.
fn half_inked_grid() -> Vec<PixelSample> {
    let mut samples = Vec::new();
    for y in 0..10u32 {
        for x in 0..10u32 {
            let coverage = if x < 5 { COVERAGE_ONE } else { 0 };
            samples.push(PixelSample { x, y, coverage });
        }
    }
    samples
}

fn square_box(side: i32) -> BoundingBox {
    BoundingBox { min_x: 0, min_y: 0, max_x: side, max_y: side }
}

#[test]
fn half_inked_glyph_has_density_one_half() {
    // Reference 'x' box of height 10; test glyph of width 10, aligned so
    // that the vertical adjustment is zero; half of the 10x10 grid at
    // coverage 1.0 and half at 0.0.
    let frame = square_box(10);
    let glyph = GlyphRasterization { bounds: square_box(10), samples: half_inked_grid() };
    let density = measure_glyph_darkness(&glyph, &frame).unwrap().unwrap();
    assert_eq!(density, Ratio::new(50, 100));
    assert_eq!(density.to_approximate_decimal(), Some(500_000)); // exactly 0.5
}

#[test]
fn coverage_at_exactly_one_half_is_not_inked() {
    let frame = square_box(1);
    let glyph = GlyphRasterization {
        bounds: square_box(1),
        samples: vec![PixelSample { x: 0, y: 0, coverage: COVERAGE_ONE / 2 }],
    };
    assert_eq!(
        measure_glyph_darkness(&glyph, &frame).unwrap().unwrap(),
        Ratio::new(0, 1)
    );
    let glyph_above = GlyphRasterization {
        bounds: square_box(1),
        samples: vec![PixelSample { x: 0, y: 0, coverage: COVERAGE_ONE / 2 + 1 }],
    };
    assert_eq!(
        measure_glyph_darkness(&glyph_above, &frame).unwrap().unwrap(),
        Ratio::new(1, 1)
    );
}

#[test]
fn samples_outside_the_frame_are_discarded() {
    // The frame is rows 0..10 in the reference coordinates; the test glyph
    // starts 5 rows above the frame origin, so its rows 5..15 fall outside
    // the window for rows >= 5 after adjustment.
    let frame = square_box(10);
    let bounds = BoundingBox { min_x: 0, min_y: 5, max_x: 10, max_y: 15 };
    let mut samples = Vec::new();
    for y in 0..10u32 {
        samples.push(PixelSample { x: 0, y, coverage: COVERAGE_ONE });
    }
    let glyph = GlyphRasterization { bounds, samples };
    // y_adjust = 5: raster rows 0..5 land on frame rows 5..10 and count;
    // raster rows 5..10 land on frame rows 10..15, out of the window.
    assert_eq!(
        measure_glyph_darkness(&glyph, &frame).unwrap().unwrap(),
        Ratio::new(5, 100)
    );
}

#[test]
fn zero_area_glyph_is_undefined_not_zero() {
    let frame = square_box(10);
    let glyph = GlyphRasterization {
        bounds: BoundingBox { min_x: 3, min_y: 0, max_x: 3, max_y: 10 },
        samples: Vec::new(),
    };
    assert_eq!(measure_glyph_darkness(&glyph, &frame), Ok(None));
}

#[test]
fn inverted_glyph_box_is_malformed_geometry() {
    let frame = square_box(10);
    let glyph = GlyphRasterization {
        bounds: BoundingBox { min_x: 5, min_y: 5, max_x: 0, max_y: 0 },
        samples: Vec::new(),
    };
    assert_eq!(
        measure_glyph_darkness(&glyph, &frame),
        Err(MetricsError::MalformedGeometry)
    );
    let glyph_fine = GlyphRasterization { bounds: square_box(2), samples: Vec::new() };
    let inverted_frame = BoundingBox { min_x: 0, min_y: 9, max_x: 9, max_y: 0 };
    assert_eq!(
        measure_glyph_darkness(&glyph_fine, &inverted_frame),
        Err(MetricsError::MalformedGeometry)
    );
}

#[test]
fn aggregate_is_exact_mean_of_defined_densities() {
    let frame = square_box(10);
    // First glyph: density 1/2; second: density 1/4; third: missing;
    // fourth: degenerate (zero width), excluded.
    let half = GlyphRasterization { bounds: square_box(10), samples: half_inked_grid() };
    let mut quarter_samples = Vec::new();
    for y in 0..5u32 {
        for x in 0..5u32 {
            quarter_samples.push(PixelSample { x, y, coverage: COVERAGE_ONE });
        }
    }
    let quarter = GlyphRasterization { bounds: square_box(10), samples: quarter_samples };
    let degenerate = GlyphRasterization {
        bounds: BoundingBox { min_x: 0, min_y: 0, max_x: 0, max_y: 10 },
        samples: Vec::new(),
    };
    let glyphs = vec![Some(half), Some(quarter), None, Some(degenerate)];
    assert!(font_darkness_fits(&glyphs, &frame));
    let mean = measure_font_darkness(&glyphs, &frame).unwrap();
    // (50/100 + 25/100) / 2 accumulated exactly: 75/100 over two glyphs.
    assert_eq!(mean, Ratio::new(75, 200));
    assert_eq!(mean.to_approximate_decimal(), Some(375_000)); // 0.375
}

#[test]
fn single_glyph_mean_is_that_glyph_density_exactly() {
    // One inked pixel in an area of 3: the mean is exactly 1/3, not a
    // decimal approximation of it.
    let frame = BoundingBox { min_x: 0, min_y: 0, max_x: 9, max_y: 3 };
    let glyph = GlyphRasterization {
        bounds: BoundingBox { min_x: 0, min_y: 0, max_x: 1, max_y: 3 },
        samples: vec![PixelSample { x: 0, y: 0, coverage: COVERAGE_ONE }],
    };
    let glyphs = vec![Some(glyph)];
    let mean = measure_font_darkness(&glyphs, &frame).unwrap();
    assert_eq!(mean, Ratio::new(1, 3));
}

#[test]
fn aggregate_sums_unequal_denominators_exactly() {
    // Frame of height 6; one glyph of width 2 (area 12) with 6 inked
    // pixels (density 1/2 as 6/12) and one of width 3 (area 18) with 6
    // inked pixels (density 1/3 as 6/18). The exact mean is
    // (6/12 + 6/18) / 2 = (5/6) / 2, accumulated over the common divisor
    // 6 of the two areas as 30/36, so the aggregate is 30/72.
    let frame = BoundingBox { min_x: 0, min_y: 0, max_x: 6, max_y: 6 };
    let inked_column = |rows: u32| -> Vec<PixelSample> {
        (0..rows).map(|y| PixelSample { x: 0, y, coverage: COVERAGE_ONE }).collect()
    };
    let narrow = GlyphRasterization {
        bounds: BoundingBox { min_x: 0, min_y: 0, max_x: 2, max_y: 6 },
        samples: inked_column(6),
    };
    let wider = GlyphRasterization {
        bounds: BoundingBox { min_x: 0, min_y: 0, max_x: 3, max_y: 6 },
        samples: inked_column(6),
    };
    let glyphs = vec![Some(narrow), Some(wider)];
    let mean = measure_font_darkness(&glyphs, &frame).unwrap();
    assert_eq!(mean, Ratio::new(30, 72));
    // 30/72 = 5/12 ~ 0.416666...
    assert_eq!(mean.to_approximate_decimal(), Some(416_666));
}

#[test]
fn unrepresentable_density_sum_is_detected() {
    // Three glyphs whose areas share only the frame height: the reduced
    // denominator is the product of three near-2^31 primes times the
    // frame height, beyond what a ratio component can hold.
    let frame = BoundingBox { min_x: 0, min_y: 0, max_x: 1, max_y: 1_000_000_007 };
    let wide = |w: i32| GlyphRasterization {
        bounds: BoundingBox { min_x: 0, min_y: 0, max_x: w, max_y: 1 },
        samples: Vec::new(),
    };
    let glyphs = vec![
        Some(wide(2_147_483_647)),
        Some(wide(2_147_483_629)),
        Some(wide(2_147_483_587)),
    ];
    assert!(!font_darkness_fits(&glyphs, &frame));
    // Two such glyphs still fit.
    let glyphs = vec![Some(wide(2_147_483_647)), Some(wide(2_147_483_629))];
    assert!(font_darkness_fits(&glyphs, &frame));
}

#[test]
fn all_zero_width_glyphs_report_no_measurable_glyphs() {
    let frame = square_box(10);
    let zero_width = |min_x: i32| GlyphRasterization {
        bounds: BoundingBox { min_x, min_y: 0, max_x: min_x, max_y: 10 },
        samples: Vec::new(),
    };
    let glyphs = vec![Some(zero_width(0)), Some(zero_width(4)), Some(zero_width(9))];
    assert_eq!(
        measure_font_darkness(&glyphs, &frame),
        Err(MetricsError::NoMeasurableGlyphs)
    );
}

#[test]
fn all_glyphs_missing_report_no_measurable_glyphs() {
    let frame = square_box(10);
    let glyphs: Vec<Option<GlyphRasterization>> = vec![None, None, None];
    assert_eq!(
        measure_font_darkness(&glyphs, &frame),
        Err(MetricsError::NoMeasurableGlyphs)
    );
}

#[test]
fn malformed_glyph_in_alphabet_is_reported() {
    let frame = square_box(10);
    let bad = GlyphRasterization {
        bounds: BoundingBox { min_x: 5, min_y: 5, max_x: 0, max_y: 0 },
        samples: Vec::new(),
    };
    let good = GlyphRasterization { bounds: square_box(10), samples: half_inked_grid() };
    let glyphs = vec![Some(good), Some(bad)];
    assert_eq!(
        measure_font_darkness(&glyphs, &frame),
        Err(MetricsError::MalformedGeometry)
    );
}

#[test]
fn recomputing_density_is_bit_identical() {
    let frame = square_box(10);
    let glyph = || GlyphRasterization { bounds: square_box(10), samples: half_inked_grid() };
    let a = measure_font_darkness(&vec![Some(glyph())], &frame);
    let b = measure_font_darkness(&vec![Some(glyph())], &frame);
    assert_eq!(a, b);
}
