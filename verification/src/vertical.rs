//! The vertical metric ratio calculator: x-height over cap height.
use vstd::prelude::*;

verus! {

use crate::errors::MetricsError;
use crate::geometry::BoundingBox;
use crate::ratio::Ratio;

/// Outline extents reported by the glyph geometry provider for the two
/// fixed reference sets: {v, x, z} for x-height and {H, I, T} for cap
/// height. These letters tend to sit close to the true x-height and cap
/// height without overshooting. `None` records a glyph the font does not
/// provide; a missing glyph is not an error and contributes a neutral zero
/// height.
#[derive(Clone, Copy, Debug, PartialEq, Eq, Structural)]
pub struct VerticalMetricInputs {
    pub v: Option<BoundingBox>,
    pub x: Option<BoundingBox>,
    pub z: Option<BoundingBox>,
    pub cap_h: Option<BoundingBox>,
    pub cap_i: Option<BoundingBox>,
    pub cap_t: Option<BoundingBox>,
}

/// A reported box must not be inverted; an absent glyph is always fine.
pub open spec fn opt_box_well_formed(o: Option<BoundingBox>) -> bool {
    match o {
        Some(b) => b.well_formed(),
        None => true,
    }
}

/// The height a provider response contributes to a sum: the box's vertical
/// span, or zero for a glyph the font does not provide.
pub open spec fn height_contribution(o: Option<BoundingBox>) -> int {
    match o {
        Some(b) => b.spec_height(),
        None => 0,
    }
}

impl VerticalMetricInputs {
    pub open spec fn well_formed(self) -> bool {
        opt_box_well_formed(self.v) && opt_box_well_formed(self.x) && opt_box_well_formed(self.z)
            && opt_box_well_formed(self.cap_h) && opt_box_well_formed(self.cap_i)
            && opt_box_well_formed(self.cap_t)
    }

    pub open spec fn x_heights_sum(self) -> int {
        height_contribution(self.v) + height_contribution(self.x) + height_contribution(self.z)
    }

    pub open spec fn cap_heights_sum(self) -> int {
        height_contribution(self.cap_h) + height_contribution(self.cap_i) + height_contribution(
            self.cap_t,
        )
    }
}

/// What the calculator returns for every input: a malformed box is
/// rejected; otherwise the ratio of the two height sums, stored verbatim.
/// Either sum may be zero (every glyph of a set missing or flat); a zero
/// cap-height sum makes the ratio explicitly undefined rather than
/// aborting.
pub open spec fn spec_x_height_ratio(inputs: VerticalMetricInputs) -> Result<Ratio, MetricsError> {
    if !inputs.well_formed() {
        Err(MetricsError::MalformedGeometry)
    } else {
        Ok(Ratio { numer: inputs.x_heights_sum() as i128, denom: inputs.cap_heights_sum() as i128 })
    }
}

fn opt_well_formed(o: &Option<BoundingBox>) -> (b: bool)
    ensures
        b == opt_box_well_formed(*o),
{
    match o {
        Some(bb) => bb.is_well_formed(),
        None => true,
    }
}

fn contributed_height(o: &Option<BoundingBox>) -> (h: i64)
    ensures
        h == height_contribution(*o),
{
    match o {
        Some(bb) => bb.height(),
        None => 0,
    }
}

/// Expresses the font's x-height relative to its cap height as one exact
/// ratio: the summed heights of {v, x, z} over the summed heights of
/// {H, I, T}.
pub fn x_height_ratio(inputs: &VerticalMetricInputs) -> (res: Result<Ratio, MetricsError>)
    ensures
        res == spec_x_height_ratio(*inputs),
{
    if !opt_well_formed(&inputs.v) || !opt_well_formed(&inputs.x) || !opt_well_formed(&inputs.z)
        || !opt_well_formed(&inputs.cap_h) || !opt_well_formed(&inputs.cap_i) || !opt_well_formed(
        &inputs.cap_t,
    ) {
        return Err(MetricsError::MalformedGeometry);
    }
    let x_heights_sum: i64 = contributed_height(&inputs.v) + contributed_height(&inputs.x)
        + contributed_height(&inputs.z);
    let cap_heights_sum: i64 = contributed_height(&inputs.cap_h) + contributed_height(
        &inputs.cap_i,
    ) + contributed_height(&inputs.cap_t);
    Ok(Ratio { numer: x_heights_sum as i128, denom: cap_heights_sum as i128 })
}

/// Recomputing the ratio from identical provider responses yields a
/// bit-identical ratio: the calculator is a pure function of its inputs,
/// with no hidden state or order dependence.
pub proof fn lemma_x_height_ratio_deterministic(a: VerticalMetricInputs, b: VerticalMetricInputs)
    requires
        a == b,
    ensures
        spec_x_height_ratio(a) == spec_x_height_ratio(b),
{
}

} // verus!
