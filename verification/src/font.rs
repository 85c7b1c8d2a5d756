//! Measuring a loaded font directly, through the rusttype outline reader.
use vstd::prelude::*;

verus! {

use crate::errors::MetricsError;
use crate::geometry::BoundingBox;
use crate::ratio::Ratio;
use crate::vertical::{spec_x_height_ratio, x_height_ratio, VerticalMetricInputs};

#[verifier::external_type_specification]
#[verifier::external_body]
pub struct ExFont<'a>(rusttype::Font<'a>);

/// Relies on rusttype's `Font::glyph`, `Glyph::standalone` and
/// `SharedGlyphData::extents`: the extents of the glyph's outline in
/// integer font units, or `None` when the glyph has no visible outline.
#[verifier::external_body]
fn glyph_extents(font: &rusttype::Font, c: char) -> (r: Option<BoundingBox>) {
    let glyph = font.glyph(c).standalone();
    match glyph.get_data() {
        Some(data) => data.extents.map(
            |e| BoundingBox { min_x: e.min.x, min_y: e.min.y, max_x: e.max.x, max_y: e.max.y },
        ),
        None => None,
    }
}

/// Measures the x-height/cap-height ratio of a loaded font: requests the
/// outline extents of the six reference letters and hands them to the
/// vertical metric ratio calculator. Whatever extents the font reports,
/// the only possible failure is malformed geometry, and a successful
/// ratio is built from two non-negative height sums, each at most three
/// times the widest span the integer extents can express — small enough
/// for the decimal conversion to accept.
pub fn x_height_ratio_of_font(font: &rusttype::Font) -> (res: Result<Ratio, MetricsError>)
    ensures
        res matches Ok(r) ==> 0 <= r.numer <= 12_884_901_885 && 0 <= r.denom <= 12_884_901_885,
        res matches Err(e) ==> e == MetricsError::MalformedGeometry,
{
    let inputs = VerticalMetricInputs {
        v: glyph_extents(font, 'v'),
        x: glyph_extents(font, 'x'),
        z: glyph_extents(font, 'z'),
        cap_h: glyph_extents(font, 'H'),
        cap_i: glyph_extents(font, 'I'),
        cap_t: glyph_extents(font, 'T'),
    };
    let res = x_height_ratio(&inputs);
    proof {
        if spec_x_height_ratio(inputs) is Ok {
            assert(inputs.well_formed());
        }
    }
    res
}

} // verus!
