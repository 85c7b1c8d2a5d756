use font_metrics::errors::MetricsError;
use font_metrics::geometry::{glyph_height, BoundingBox};
use font_metrics::ratio::Ratio;
use font_metrics::vertical::{x_height_ratio, VerticalMetricInputs};

fn box_of_height(h: i32) -> BoundingBox {
    BoundingBox { min_x: 0, min_y: 0, max_x: 50, max_y: h }
}

#[test]
fn glyph_height_is_vertical_span() {
    let bb = BoundingBox { min_x: 3, min_y: -20, max_x: 9, max_y: 45 };
    assert_eq!(glyph_height(&bb), 65);
    assert_eq!(glyph_height(&box_of_height(0)), 0);
}

#[test]
fn synthetic_provider_heights_give_half_ratio() {
    let inputs = VerticalMetricInputs {
        v: Some(box_of_height(100)),
        x: Some(box_of_height(100)),
        z: Some(box_of_height(100)),
        cap_h: Some(box_of_height(200)),
        cap_i: Some(box_of_height(200)),
        cap_t: Some(box_of_height(200)),
    };
    let ratio = x_height_ratio(&inputs).unwrap();
    assert_eq!(ratio, Ratio::new(300, 600));
    assert_eq!(ratio.to_approximate_decimal(), Some(500_000)); // ~0.5
}

#[test]
fn missing_glyph_contributes_zero_height() {
    let inputs = VerticalMetricInputs {
        v: None,
        x: Some(box_of_height(100)),
        z: None,
        cap_h: Some(box_of_height(200)),
        cap_i: None,
        cap_t: Some(box_of_height(200)),
    };
    assert_eq!(x_height_ratio(&inputs).unwrap(), Ratio::new(100, 400));
}

#[test]
fn all_cap_glyphs_missing_yields_undefined_ratio_not_abort() {
    let inputs = VerticalMetricInputs {
        v: Some(box_of_height(100)),
        x: Some(box_of_height(100)),
        z: Some(box_of_height(100)),
        cap_h: None,
        cap_i: None,
        cap_t: None,
    };
    let ratio = x_height_ratio(&inputs).unwrap();
    assert_eq!(ratio, Ratio::new(300, 0));
    assert_eq!(ratio.to_approximate_decimal(), None);
}

#[test]
fn zero_x_height_sum_is_a_ratio_not_a_panic() {
    let inputs = VerticalMetricInputs {
        v: None,
        x: None,
        z: None,
        cap_h: Some(box_of_height(200)),
        cap_i: Some(box_of_height(200)),
        cap_t: Some(box_of_height(200)),
    };
    assert_eq!(x_height_ratio(&inputs).unwrap(), Ratio::new(0, 600));
}

#[test]
fn inverted_box_is_malformed_geometry() {
    let inputs = VerticalMetricInputs {
        v: Some(BoundingBox { min_x: 0, min_y: 10, max_x: 5, max_y: 3 }),
        x: Some(box_of_height(100)),
        z: Some(box_of_height(100)),
        cap_h: Some(box_of_height(200)),
        cap_i: Some(box_of_height(200)),
        cap_t: Some(box_of_height(200)),
    };
    assert_eq!(x_height_ratio(&inputs), Err(MetricsError::MalformedGeometry));
}

#[test]
fn recomputing_vertical_ratio_is_bit_identical() {
    let inputs = VerticalMetricInputs {
        v: Some(box_of_height(73)),
        x: Some(box_of_height(74)),
        z: Some(box_of_height(75)),
        cap_h: Some(box_of_height(101)),
        cap_i: Some(box_of_height(102)),
        cap_t: Some(box_of_height(103)),
    };
    assert_eq!(x_height_ratio(&inputs), x_height_ratio(&inputs));
}
