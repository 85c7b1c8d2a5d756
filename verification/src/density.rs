//! The glyph ink-density estimator: how dark a font's lowercase letters are.
use vstd::prelude::*;

verus! {

use crate::errors::MetricsError;
use crate::geometry::BoundingBox;
use crate::ratio::{gcd_u128, lemma_gcd_divides, spec_gcd, Ratio, RATIO_COMPONENT_LIMIT};

/// Full ink in the fixed-point coverage scale: a sample's `coverage` field
/// counts parts of 1/65536, so 65536 is a fully covered pixel.
pub const COVERAGE_ONE: u32 = 65536;

/// One rasterizer sample: a pixel position in the rasterized glyph's own
/// coordinate frame, and that pixel's anti-aliased coverage in parts of
/// [`COVERAGE_ONE`]. A glyph's samples form a finite sequence consumed
/// exactly once per measurement.
#[derive(Clone, Copy, Debug, PartialEq, Eq, Structural)]
pub struct PixelSample {
    pub x: u32,
    pub y: u32,
    pub coverage: u32,
}

/// One rasterized glyph as the geometry provider reports it: its pixel
/// bounding box and its coverage samples.
#[derive(Clone, Debug)]
pub struct GlyphRasterization {
    pub bounds: BoundingBox,
    pub samples: Vec<PixelSample>,
}

/// A pixel is inked exactly when its coverage exceeds one half. The fixed
/// one-half binarization of anti-aliased coverage is a deliberate,
/// documented simplification, not a derived constant.
pub open spec fn is_inked(s: PixelSample) -> bool {
    2 * s.coverage > COVERAGE_ONE
}

/// A sample lies in the measurement window when its row, translated into
/// the reference frame, falls within the frame's height. Pixels above the
/// ascender or below the descender of the reference letter do not count.
pub open spec fn in_frame(s: PixelSample, y_adjust: int, frame_height: int) -> bool {
    0 <= s.y + y_adjust < frame_height
}

pub open spec fn sample_counted(s: PixelSample, y_adjust: int, frame_height: int) -> bool {
    in_frame(s, y_adjust, frame_height) && is_inked(s)
}

/// How many samples land inside the measurement window and are inked.
pub open spec fn inked_count(samples: Seq<PixelSample>, y_adjust: int, frame_height: int) -> int
    decreases samples.len(),
{
    if samples.len() == 0 {
        0
    } else {
        inked_count(samples.drop_last(), y_adjust, frame_height) + if sample_counted(
            samples.last(),
            y_adjust,
            frame_height,
        ) {
            1int
        } else {
            0int
        }
    }
}

pub proof fn lemma_inked_count_bounds(
    samples: Seq<PixelSample>,
    y_adjust: int,
    frame_height: int,
)
    ensures
        0 <= inked_count(samples, y_adjust, frame_height) <= samples.len(),
    decreases samples.len(),
{
    if samples.len() > 0 {
        lemma_inked_count_bounds(samples.drop_last(), y_adjust, frame_height);
    }
}

impl GlyphRasterization {
    /// Translates this glyph's raster rows into the reference frame: the
    /// correctness-critical realignment of glyphs whose ascent or descent
    /// differs from the reference letter.
    pub open spec fn y_adjust(self, frame: BoundingBox) -> int {
        self.bounds.min_y - frame.min_y
    }

    /// The measurement area: the reference frame's height times this
    /// glyph's own width.
    pub open spec fn area(self, frame: BoundingBox) -> int {
        frame.spec_height() * self.bounds.spec_width()
    }
}

/// Per-glyph density for every input: inverted geometry is rejected; a
/// degenerate (zero) measurement area makes the density undefined (`None`),
/// excluded from any aggregate rather than counted as zero; otherwise the
/// density is the exact ratio of inked in-window samples to the area.
pub open spec fn spec_glyph_darkness(g: GlyphRasterization, frame: BoundingBox) -> Result<
    Option<Ratio>,
    MetricsError,
> {
    if !g.bounds.well_formed() || !frame.well_formed() {
        Err(MetricsError::MalformedGeometry)
    } else if g.area(frame) <= 0 {
        Ok(None)
    } else {
        Ok(
            Some(
                Ratio {
                    numer: inked_count(g.samples@, g.y_adjust(frame), frame.spec_height()) as i128,
                    denom: g.area(frame) as i128,
                },
            ),
        )
    }
}

/// Estimates one glyph's ink density against the reference frame (the
/// bounding box of the reference letter 'x' at the same scale).
pub fn measure_glyph_darkness(glyph: &GlyphRasterization, frame: &BoundingBox) -> (res: Result<
    Option<Ratio>,
    MetricsError,
>)
    ensures
        res == spec_glyph_darkness(*glyph, *frame),
{
    if !glyph.bounds.is_well_formed() || !frame.is_well_formed() {
        return Err(MetricsError::MalformedGeometry);
    }
    let frame_height: i64 = frame.height();
    let test_width: i64 = glyph.bounds.width();
    proof {
        assert(frame_height * test_width == (*glyph).area(*frame));
        assert(0 <= frame_height * test_width <= 0x1_0000_0000_0000_0000) by (nonlinear_arith)
            requires
                0 <= frame_height <= 0x1_0000_0000,
                0 <= test_width <= 0x1_0000_0000,
        ;
    }
    let area: i128 = (frame_height as i128) * (test_width as i128);
    if area <= 0 {
        return Ok(None);
    }
    let y_adjust: i64 = glyph.bounds.min_y as i64 - frame.min_y as i64;
    let mut inked: usize = 0;
    let mut i: usize = 0;
    while i < glyph.samples.len()
        invariant
            0 <= i <= glyph.samples@.len(),
            inked <= i,
            inked == inked_count(
                glyph.samples@.subrange(0, i as int),
                y_adjust as int,
                frame_height as int,
            ),
            y_adjust == (*glyph).y_adjust(*frame),
            frame_height == frame.spec_height(),
        decreases glyph.samples@.len() - i,
    {
        let s = glyph.samples[i];
        let adjusted_y: i64 = s.y as i64 + y_adjust;
        if 0 <= adjusted_y && adjusted_y < frame_height && 2u64 * (s.coverage as u64)
            > COVERAGE_ONE as u64 {
            inked = inked + 1;
        }
        proof {
            let pre = glyph.samples@.subrange(0, i as int);
            let post = glyph.samples@.subrange(0, i + 1);
            assert(post.drop_last() =~= pre);
            assert(post.last() == glyph.samples@[i as int]);
        }
        i = i + 1;
    }
    proof {
        assert(glyph.samples@.subrange(0, glyph.samples@.len() as int) =~= glyph.samples@);
    }
    Ok(Some(Ratio { numer: inked as i128, denom: area }))
}

/// A response contributes a defined density exactly when the glyph exists,
/// its box is not inverted, and its measurement area is positive. A missing
/// glyph (`None`) is excluded from the aggregate, not counted as zero.
pub open spec fn glyph_measurable(o: Option<GlyphRasterization>, frame: BoundingBox) -> bool {
    match o {
        Some(g) => g.bounds.well_formed() && g.area(frame) > 0,
        None => false,
    }
}

pub open spec fn opt_glyph_well_formed(o: Option<GlyphRasterization>) -> bool {
    match o {
        Some(g) => g.bounds.well_formed(),
        None => true,
    }
}

pub open spec fn responses_well_formed(glyphs: Seq<Option<GlyphRasterization>>) -> bool {
    forall|i: int| 0 <= i < glyphs.len() ==> opt_glyph_well_formed(#[trigger] glyphs[i])
}

/// How many responses contribute a defined density.
pub open spec fn defined_count(glyphs: Seq<Option<GlyphRasterization>>, frame: BoundingBox) -> int
    decreases glyphs.len(),
{
    if glyphs.len() == 0 {
        0
    } else {
        defined_count(glyphs.drop_last(), frame) + if glyph_measurable(glyphs.last(), frame) {
            1int
        } else {
            0int
        }
    }
}

pub proof fn lemma_defined_count_bounds(
    glyphs: Seq<Option<GlyphRasterization>>,
    frame: BoundingBox,
)
    ensures
        0 <= defined_count(glyphs, frame) <= glyphs.len(),
    decreases glyphs.len(),
{
    if glyphs.len() > 0 {
        lemma_defined_count_bounds(glyphs.drop_last(), frame);
    }
}

/// One step of exact fraction addition: the running sum `sn/sd` plus
/// `n/d`, with both parts divided by their common divisor so the
/// representation stays small. The mathematical value is exactly the sum
/// of the two fractions.
pub open spec fn reduced_fraction_add(sn: int, sd: int, n: int, d: int) -> (int, int)
    recommends
        1 <= sd,
        1 <= d,
{
    let g = spec_gcd(sd, d);
    (sn * (d / g) + n * (sd / g), sd * (d / g))
}

/// The exact sum of the defined per-glyph densities, accumulated as one
/// fraction with common-divisor reduction at every step.
pub open spec fn density_sum_pair(
    glyphs: Seq<Option<GlyphRasterization>>,
    frame: BoundingBox,
) -> (int, int)
    decreases glyphs.len(),
{
    if glyphs.len() == 0 {
        (0, 1)
    } else {
        let prev = density_sum_pair(glyphs.drop_last(), frame);
        match glyphs.last() {
            Some(g) => if g.bounds.well_formed() && g.area(frame) > 0 {
                reduced_fraction_add(
                    prev.0,
                    prev.1,
                    inked_count(g.samples@, g.y_adjust(frame), frame.spec_height()),
                    g.area(frame),
                )
            } else {
                prev
            },
            None => prev,
        }
    }
}

/// Whether the exact density sum stays within the ratio component limit at
/// every accumulation step. This is the machine limit on representing the
/// aggregate: the reduced denominator of a sum over unrelated areas can in
/// principle grow without bound.
pub open spec fn density_sum_fits(
    glyphs: Seq<Option<GlyphRasterization>>,
    frame: BoundingBox,
) -> bool
    decreases glyphs.len(),
{
    if glyphs.len() == 0 {
        true
    } else {
        let pair = density_sum_pair(glyphs, frame);
        density_sum_fits(glyphs.drop_last(), frame) && pair.0 <= RATIO_COMPONENT_LIMIT
            && pair.1 <= RATIO_COMPONENT_LIMIT
    }
}

/// The machine limit on the aggregate: where the inputs are well formed,
/// every intermediate sum and the final denominator (the sum's denominator
/// times the defined count) must be representable. Malformed geometry is
/// rejected before any arithmetic, so it needs no such evidence.
pub open spec fn font_darkness_representable(
    glyphs: Seq<Option<GlyphRasterization>>,
    frame: BoundingBox,
) -> bool {
    (frame.well_formed() && responses_well_formed(glyphs)) ==> (density_sum_fits(glyphs, frame)
        && density_sum_pair(glyphs, frame).1 * defined_count(glyphs, frame)
        <= RATIO_COMPONENT_LIMIT)
}

/// The aggregate for every input: inverted geometry anywhere is rejected;
/// if no glyph yields a defined density the aggregate is itself undefined
/// (`NoMeasurableGlyphs`), never a division by zero; otherwise the
/// arithmetic mean of the defined per-glyph densities: their exact sum,
/// divided by their count.
pub open spec fn spec_font_darkness(
    glyphs: Seq<Option<GlyphRasterization>>,
    frame: BoundingBox,
) -> Result<Ratio, MetricsError> {
    if !frame.well_formed() || !responses_well_formed(glyphs) {
        Err(MetricsError::MalformedGeometry)
    } else if defined_count(glyphs, frame) == 0 {
        Err(MetricsError::NoMeasurableGlyphs)
    } else {
        let pair = density_sum_pair(glyphs, frame);
        Ok(
            Ratio {
                numer: pair.0 as i128,
                denom: (pair.1 * defined_count(glyphs, frame)) as i128,
            },
        )
    }
}

/// Representability of the whole sum carries to every prefix of the
/// responses.
proof fn lemma_density_fits_prefix(
    glyphs: Seq<Option<GlyphRasterization>>,
    frame: BoundingBox,
    i: int,
)
    requires
        density_sum_fits(glyphs, frame),
        0 <= i <= glyphs.len(),
    ensures
        density_sum_fits(glyphs.subrange(0, i), frame),
    decreases glyphs.len() - i,
{
    if i == glyphs.len() {
        assert(glyphs.subrange(0, i) =~= glyphs);
    } else {
        lemma_density_fits_prefix(glyphs, frame, i + 1);
        let next = glyphs.subrange(0, i + 1);
        assert(next.drop_last() =~= glyphs.subrange(0, i));
    }
}

/// The accumulated sum is a genuine fraction: non-negative numerator over
/// a positive denominator.
pub proof fn lemma_density_sum_pair_bounds(
    glyphs: Seq<Option<GlyphRasterization>>,
    frame: BoundingBox,
)
    ensures
        0 <= density_sum_pair(glyphs, frame).0,
        1 <= density_sum_pair(glyphs, frame).1,
    decreases glyphs.len(),
{
    if glyphs.len() > 0 {
        lemma_density_sum_pair_bounds(glyphs.drop_last(), frame);
        let prev = density_sum_pair(glyphs.drop_last(), frame);
        match glyphs.last() {
            Some(g) => {
                if g.bounds.well_formed() && g.area(frame) > 0 {
                    let n = inked_count(g.samples@, g.y_adjust(frame), frame.spec_height());
                    let d = g.area(frame);
                    lemma_inked_count_bounds(g.samples@, g.y_adjust(frame), frame.spec_height());
                    let g0 = spec_gcd(prev.1, d);
                    lemma_gcd_divides(prev.1, d);
                    vstd::arithmetic::div_mod::lemma_fundamental_div_mod(prev.1, g0);
                    vstd::arithmetic::div_mod::lemma_fundamental_div_mod(d, g0);
                    assert(1 <= d / g0 && 1 <= prev.1 / g0) by (nonlinear_arith)
                        requires
                            1 <= g0,
                            1 <= d,
                            1 <= prev.1,
                            d == g0 * (d / g0),
                            prev.1 == g0 * (prev.1 / g0),
                    ;
                    assert(0 <= prev.0 * (d / g0) + n * (prev.1 / g0) && 1 <= prev.1 * (d / g0))
                        by (nonlinear_arith)
                        requires
                            0 <= prev.0,
                            1 <= prev.1,
                            0 <= n,
                            1 <= d / g0,
                            1 <= prev.1 / g0,
                    ;
                }
            },
            None => {
            },
        }
    }
}

/// When the sum after some step already exceeds the limit, well-formed
/// responses as a whole are not representable.
proof fn lemma_fits_break(
    glyphs: Seq<Option<GlyphRasterization>>,
    frame: BoundingBox,
    i: int,
)
    requires
        frame.well_formed(),
        responses_well_formed(glyphs),
        0 <= i <= glyphs.len(),
        density_sum_pair(glyphs.subrange(0, i), frame).0 > RATIO_COMPONENT_LIMIT
            || density_sum_pair(glyphs.subrange(0, i), frame).1 > RATIO_COMPONENT_LIMIT,
    ensures
        !font_darkness_representable(glyphs, frame),
{
    if density_sum_fits(glyphs, frame) {
        lemma_density_fits_prefix(glyphs, frame, i);
        let prefix = glyphs.subrange(0, i);
        if prefix.len() == 0 {
            assert(density_sum_pair(prefix, frame).0 == 0);
        }
    }
}

/// Estimates the font's ink density over a test alphabet: the arithmetic
/// mean of the defined per-glyph densities, measured against the reference
/// frame. The precondition is a machine limit alone: the exactly
/// accumulated sum must be representable, which [`font_darkness_fits`]
/// tests at run time for arbitrary provider data.
pub fn measure_font_darkness(
    glyphs: &Vec<Option<GlyphRasterization>>,
    frame: &BoundingBox,
) -> (res: Result<Ratio, MetricsError>)
    requires
        font_darkness_representable(glyphs@, *frame),
    ensures
        res == spec_font_darkness(glyphs@, *frame),
        res matches Ok(r) ==> 0 <= r.numer <= RATIO_COMPONENT_LIMIT && 1 <= r.denom
            <= RATIO_COMPONENT_LIMIT,
{
    if !frame.is_well_formed() {
        return Err(MetricsError::MalformedGeometry);
    }
    let mut i: usize = 0;
    while i < glyphs.len()
        invariant
            0 <= i <= glyphs@.len(),
            forall|j: int| 0 <= j < i ==> opt_glyph_well_formed(#[trigger] glyphs@[j]),
        decreases glyphs@.len() - i,
    {
        match &glyphs[i] {
            Some(g) => {
                if !g.bounds.is_well_formed() {
                    proof {
                        assert(!opt_glyph_well_formed(glyphs@[i as int]));
                        assert(!responses_well_formed(glyphs@));
                    }
                    return Err(MetricsError::MalformedGeometry);
                }
            },
            None => {
            },
        }
        i = i + 1;
    }
    let mut sum_numer: u128 = 0;
    let mut sum_denom: u128 = 1;
    let mut defined: usize = 0;
    i = 0;
    while i < glyphs.len()
        invariant
            0 <= i <= glyphs@.len(),
            frame.well_formed(),
            responses_well_formed(glyphs@),
            density_sum_fits(glyphs@, *frame),
            density_sum_pair(glyphs@, *frame).1 * defined_count(glyphs@, *frame)
                <= RATIO_COMPONENT_LIMIT,
            sum_numer as int == density_sum_pair(glyphs@.subrange(0, i as int), *frame).0,
            sum_denom as int == density_sum_pair(glyphs@.subrange(0, i as int), *frame).1,
            1 <= sum_denom,
            sum_numer as int <= RATIO_COMPONENT_LIMIT,
            sum_denom as int <= RATIO_COMPONENT_LIMIT,
            defined == defined_count(glyphs@.subrange(0, i as int), *frame),
            defined <= i,
        decreases glyphs@.len() - i,
    {
        let ghost pre = glyphs@.subrange(0, i as int);
        let ghost post = glyphs@.subrange(0, i + 1);
        proof {
            assert(post.drop_last() =~= pre);
            assert(post.last() == glyphs@[i as int]);
        }
        match &glyphs[i] {
            None => {
            },
            Some(g) => {
                match measure_glyph_darkness(g, frame) {
                    Err(e) => {
                        proof {
                            assert(opt_glyph_well_formed(glyphs@[i as int]));
                            assert(false);
                        }
                        return Err(e);
                    },
                    Ok(None) => {
                        proof {
                            assert(!glyph_measurable(glyphs@[i as int], *frame));
                        }
                    },
                    Ok(Some(r)) => {
                        let ghost n = inked_count(
                            g.samples@,
                            g.y_adjust(*frame),
                            frame.spec_height(),
                        );
                        let ghost d = g.area(*frame);
                        proof {
                            assert(glyph_measurable(glyphs@[i as int], *frame));
                            lemma_inked_count_bounds(
                                g.samples@,
                                g.y_adjust(*frame),
                                frame.spec_height(),
                            );
                            assert(g.samples@.len() == vstd::std_specs::vec::spec_vec_len(
                                &g.samples,
                            ));
                            assert(0 <= g.area(*frame) < 0x1_0000_0000_0000_0000)
                                by (nonlinear_arith)
                                requires
                                    0 <= frame.spec_height() <= 0x1_0000_0000,
                                    0 <= g.bounds.spec_width() <= 0x1_0000_0000,
                                    g.area(*frame) == frame.spec_height() * g.bounds.spec_width(),
                            ;
                            assert(r.numer == n && 0 <= n < 0x1_0000_0000_0000_0000);
                            assert(r.denom == d && 1 <= d);
                        }
                        let n_u: u128 = r.numer as u128;
                        let d_u: u128 = r.denom as u128;
                        let g0: u128 = gcd_u128(sum_denom, d_u);
                        proof {
                            lemma_gcd_divides(sum_denom as int, d_u as int);
                            vstd::arithmetic::div_mod::lemma_fundamental_div_mod(
                                sum_denom as int,
                                g0 as int,
                            );
                            vstd::arithmetic::div_mod::lemma_fundamental_div_mod(
                                d_u as int,
                                g0 as int,
                            );
                        }
                        let q_d: u128 = d_u / g0;
                        let q_sd: u128 = sum_denom / g0;
                        proof {
                            lemma_density_fits_prefix(glyphs@, *frame, i + 1);
                            lemma_density_sum_pair_bounds(post, *frame);
                            let stepped = density_sum_pair(post, *frame);
                            assert(stepped == reduced_fraction_add(
                                sum_numer as int,
                                sum_denom as int,
                                n,
                                d,
                            ));
                            assert(stepped.0 <= RATIO_COMPONENT_LIMIT && stepped.1
                                <= RATIO_COMPONENT_LIMIT);
                            assert(0 <= (sum_numer as int) * (q_d as int) && 0 <= n * (
                            q_sd as int)) by (nonlinear_arith)
                                requires
                                    0 <= sum_numer as int,
                                    0 <= n,
                                    0 <= q_d as int,
                                    0 <= q_sd as int,
                            ;
                        }
                        let new_denom: u128 = sum_denom * q_d;
                        let t1: u128 = sum_numer * q_d;
                        let t2: u128 = n_u * q_sd;
                        let new_numer: u128 = t1 + t2;
                        sum_denom = new_denom;
                        sum_numer = new_numer;
                        defined = defined + 1;
                    },
                }
            },
        }
        i = i + 1;
    }
    proof {
        assert(glyphs@.subrange(0, glyphs@.len() as int) =~= glyphs@);
    }
    if defined == 0 {
        Err(MetricsError::NoMeasurableGlyphs)
    } else {
        proof {
            assert(1 <= (sum_denom as int) * (defined as int)) by (nonlinear_arith)
                requires
                    1 <= sum_denom as int,
                    1 <= defined as int,
            ;
        }
        let final_denom: u128 = sum_denom * (defined as u128);
        Ok(Ratio { numer: sum_numer as i128, denom: final_denom as i128 })
    }
}

/// Tests the machine limit of [`measure_font_darkness`] at run time: true
/// exactly when the responses are representable, so a caller holding
/// arbitrary provider data can test before measuring.
pub fn font_darkness_fits(
    glyphs: &Vec<Option<GlyphRasterization>>,
    frame: &BoundingBox,
) -> (fits: bool)
    ensures
        fits == font_darkness_representable(glyphs@, *frame),
{
    if !frame.is_well_formed() {
        return true;
    }
    let mut i: usize = 0;
    while i < glyphs.len()
        invariant
            0 <= i <= glyphs@.len(),
            forall|j: int| 0 <= j < i ==> opt_glyph_well_formed(#[trigger] glyphs@[j]),
        decreases glyphs@.len() - i,
    {
        match &glyphs[i] {
            Some(g) => {
                if !g.bounds.is_well_formed() {
                    proof {
                        assert(!opt_glyph_well_formed(glyphs@[i as int]));
                        assert(!responses_well_formed(glyphs@));
                    }
                    return true;
                }
            },
            None => {
            },
        }
        i = i + 1;
    }
    let limit: u128 = RATIO_COMPONENT_LIMIT as u128;
    let mut sum_numer: u128 = 0;
    let mut sum_denom: u128 = 1;
    let mut defined: usize = 0;
    i = 0;
    while i < glyphs.len()
        invariant
            0 <= i <= glyphs@.len(),
            frame.well_formed(),
            responses_well_formed(glyphs@),
            limit == RATIO_COMPONENT_LIMIT,
            sum_numer as int == density_sum_pair(glyphs@.subrange(0, i as int), *frame).0,
            sum_denom as int == density_sum_pair(glyphs@.subrange(0, i as int), *frame).1,
            1 <= sum_denom,
            sum_numer as int <= RATIO_COMPONENT_LIMIT,
            sum_denom as int <= RATIO_COMPONENT_LIMIT,
            density_sum_fits(glyphs@.subrange(0, i as int), *frame),
            defined == defined_count(glyphs@.subrange(0, i as int), *frame),
            defined <= i,
        decreases glyphs@.len() - i,
    {
        let ghost pre = glyphs@.subrange(0, i as int);
        let ghost post = glyphs@.subrange(0, i + 1);
        proof {
            assert(post.drop_last() =~= pre);
            assert(post.last() == glyphs@[i as int]);
        }
        match &glyphs[i] {
            None => {
            },
            Some(g) => {
                match measure_glyph_darkness(g, frame) {
                    Err(_) => {
                        proof {
                            assert(opt_glyph_well_formed(glyphs@[i as int]));
                            assert(false);
                        }
                        return false;
                    },
                    Ok(None) => {
                        proof {
                            assert(!glyph_measurable(glyphs@[i as int], *frame));
                        }
                    },
                    Ok(Some(r)) => {
                        let ghost n = inked_count(
                            g.samples@,
                            g.y_adjust(*frame),
                            frame.spec_height(),
                        );
                        let ghost d = g.area(*frame);
                        proof {
                            assert(glyph_measurable(glyphs@[i as int], *frame));
                            lemma_inked_count_bounds(
                                g.samples@,
                                g.y_adjust(*frame),
                                frame.spec_height(),
                            );
                            assert(g.samples@.len() == vstd::std_specs::vec::spec_vec_len(
                                &g.samples,
                            ));
                            assert(0 <= g.area(*frame) < 0x1_0000_0000_0000_0000)
                                by (nonlinear_arith)
                                requires
                                    0 <= frame.spec_height() <= 0x1_0000_0000,
                                    0 <= g.bounds.spec_width() <= 0x1_0000_0000,
                                    g.area(*frame) == frame.spec_height() * g.bounds.spec_width(),
                            ;
                            assert(r.numer == n && 0 <= n < 0x1_0000_0000_0000_0000);
                            assert(r.denom == d && 1 <= d);
                        }
                        let n_u: u128 = r.numer as u128;
                        let d_u: u128 = r.denom as u128;
                        let g0: u128 = gcd_u128(sum_denom, d_u);
                        proof {
                            lemma_gcd_divides(sum_denom as int, d_u as int);
                            vstd::arithmetic::div_mod::lemma_fundamental_div_mod(
                                sum_denom as int,
                                g0 as int,
                            );
                            vstd::arithmetic::div_mod::lemma_fundamental_div_mod(
                                d_u as int,
                                g0 as int,
                            );
                        }
                        let q_d: u128 = d_u / g0;
                        let q_sd: u128 = sum_denom / g0;
                        let ghost stepped = density_sum_pair(post, *frame);
                        proof {
                            lemma_density_sum_pair_bounds(post, *frame);
                            assert(stepped == reduced_fraction_add(
                                sum_numer as int,
                                sum_denom as int,
                                n,
                                d,
                            ));
                            assert(0 <= (sum_numer as int) * (q_d as int) && 0 <= n * (
                            q_sd as int)) by (nonlinear_arith)
                                requires
                                    0 <= sum_numer as int,
                                    0 <= n,
                                    0 <= q_d as int,
                                    0 <= q_sd as int,
                            ;
                        }
                        let new_denom: u128 = match sum_denom.checked_mul(q_d) {
                            Some(v) => v,
                            None => {
                                proof {
                                    lemma_fits_break(glyphs@, *frame, i + 1);
                                }
                                return false;
                            },
                        };
                        let t1: u128 = match sum_numer.checked_mul(q_d) {
                            Some(v) => v,
                            None => {
                                proof {
                                    lemma_fits_break(glyphs@, *frame, i + 1);
                                }
                                return false;
                            },
                        };
                        let t2: u128 = match n_u.checked_mul(q_sd) {
                            Some(v) => v,
                            None => {
                                proof {
                                    lemma_fits_break(glyphs@, *frame, i + 1);
                                }
                                return false;
                            },
                        };
                        let new_numer: u128 = match t1.checked_add(t2) {
                            Some(v) => v,
                            None => {
                                proof {
                                    lemma_fits_break(glyphs@, *frame, i + 1);
                                }
                                return false;
                            },
                        };
                        if new_numer > limit || new_denom > limit {
                            proof {
                                lemma_fits_break(glyphs@, *frame, i + 1);
                            }
                            return false;
                        }
                        sum_denom = new_denom;
                        sum_numer = new_numer;
                        defined = defined + 1;
                    },
                }
            },
        }
        i = i + 1;
    }
    proof {
        assert(glyphs@.subrange(0, glyphs@.len() as int) =~= glyphs@);
    }
    match sum_denom.checked_mul(defined as u128) {
        Some(v) => v <= limit,
        None => false,
    }
}

/// The same sum accumulated the textbook way: numerators and denominators
/// multiplied out with no reduction. Its components grow without bound, so
/// it serves specification only.
pub open spec fn plain_density_sum(
    glyphs: Seq<Option<GlyphRasterization>>,
    frame: BoundingBox,
) -> (int, int)
    decreases glyphs.len(),
{
    if glyphs.len() == 0 {
        (0, 1)
    } else {
        let prev = plain_density_sum(glyphs.drop_last(), frame);
        match glyphs.last() {
            Some(g) => if g.bounds.well_formed() && g.area(frame) > 0 {
                (
                    prev.0 * g.area(frame) + inked_count(
                        g.samples@,
                        g.y_adjust(frame),
                        frame.spec_height(),
                    ) * prev.1,
                    prev.1 * g.area(frame),
                )
            } else {
                prev
            },
            None => prev,
        }
    }
}

proof fn lemma_plain_sum_positive(glyphs: Seq<Option<GlyphRasterization>>, frame: BoundingBox)
    ensures
        1 <= plain_density_sum(glyphs, frame).1,
    decreases glyphs.len(),
{
    if glyphs.len() > 0 {
        lemma_plain_sum_positive(glyphs.drop_last(), frame);
        let prev = plain_density_sum(glyphs.drop_last(), frame);
        match glyphs.last() {
            Some(g) => {
                if g.bounds.well_formed() && g.area(frame) > 0 {
                    assert(1 <= prev.1 * g.area(frame)) by (nonlinear_arith)
                        requires
                            1 <= prev.1,
                            1 <= g.area(frame),
                    ;
                }
            },
            None => {
            },
        }
    }
}

/// The reduced and the plain accumulations denote the same rational.
proof fn lemma_sum_pairs_agree(glyphs: Seq<Option<GlyphRasterization>>, frame: BoundingBox)
    ensures
        density_sum_pair(glyphs, frame).0 * plain_density_sum(glyphs, frame).1
            == plain_density_sum(glyphs, frame).0 * density_sum_pair(glyphs, frame).1,
    decreases glyphs.len(),
{
    if glyphs.len() > 0 {
        lemma_sum_pairs_agree(glyphs.drop_last(), frame);
        lemma_density_sum_pair_bounds(glyphs.drop_last(), frame);
        lemma_plain_sum_positive(glyphs.drop_last(), frame);
        let r = density_sum_pair(glyphs.drop_last(), frame);
        let p = plain_density_sum(glyphs.drop_last(), frame);
        match glyphs.last() {
            Some(g) => {
                if g.bounds.well_formed() && g.area(frame) > 0 {
                    let n = inked_count(g.samples@, g.y_adjust(frame), frame.spec_height());
                    let d = g.area(frame);
                    let g0 = spec_gcd(r.1, d);
                    lemma_gcd_divides(r.1, d);
                    vstd::arithmetic::div_mod::lemma_fundamental_div_mod(r.1, g0);
                    vstd::arithmetic::div_mod::lemma_fundamental_div_mod(d, g0);
                    let x = r.1 / g0;
                    let y = d / g0;
                    assert(x * d == r.1 * y) by (nonlinear_arith)
                        requires
                            r.1 == g0 * x,
                            d == g0 * y,
                    ;
                    vstd::arithmetic::mul::lemma_mul_is_distributive_add_other_way(
                        p.1 * d,
                        r.0 * y,
                        n * x,
                    );
                    vstd::arithmetic::mul::lemma_mul_is_distributive_add_other_way(
                        r.1 * y,
                        p.0 * d,
                        n * p.1,
                    );
                    assert((r.0 * y) * (p.1 * d) == (r.0 * p.1) * (y * d)) by (nonlinear_arith);
                    assert((n * x) * (p.1 * d) == (n * p.1) * (x * d)) by (nonlinear_arith);
                    assert((p.0 * d) * (r.1 * y) == (p.0 * r.1) * (y * d)) by (nonlinear_arith);
                    assert((r.0 * p.1) * (y * d) == (p.0 * r.1) * (y * d)) by (nonlinear_arith)
                        requires
                            r.0 * p.1 == p.0 * r.1,
                    ;
                    assert((n * p.1) * (x * d) == (n * p.1) * (r.1 * y)) by (nonlinear_arith)
                        requires
                            x * d == r.1 * y,
                    ;
                    assert((r.0 * y + n * x) * (p.1 * d) == (p.0 * d + n * p.1) * (r.1 * y));
                }
            },
            None => {
            },
        }
    }
}

/// The aggregate is the arithmetic mean of the defined per-glyph
/// densities: as a mathematical rational, the reported ratio equals their
/// exact sum divided by their count.
pub proof fn lemma_font_darkness_is_arithmetic_mean(
    glyphs: Seq<Option<GlyphRasterization>>,
    frame: BoundingBox,
)
    requires
        frame.well_formed(),
        responses_well_formed(glyphs),
        font_darkness_representable(glyphs, frame),
        defined_count(glyphs, frame) > 0,
    ensures
        spec_font_darkness(glyphs, frame) is Ok,
        ({
            let r = spec_font_darkness(glyphs, frame)->Ok_0;
            let p = plain_density_sum(glyphs, frame);
            let k = defined_count(glyphs, frame);
            &&& 1 <= r.denom
            &&& 1 <= p.1 * k
            &&& r.numer * (p.1 * k) == p.0 * r.denom
        }),
{
    let pair = density_sum_pair(glyphs, frame);
    let p = plain_density_sum(glyphs, frame);
    let k = defined_count(glyphs, frame);
    lemma_density_sum_pair_bounds(glyphs, frame);
    lemma_plain_sum_positive(glyphs, frame);
    lemma_sum_pairs_agree(glyphs, frame);
    lemma_defined_count_bounds(glyphs, frame);
    assert(glyphs.len() > 0);
    assert(pair.0 <= RATIO_COMPONENT_LIMIT && pair.1 <= RATIO_COMPONENT_LIMIT);
    let r = spec_font_darkness(glyphs, frame)->Ok_0;
    assert(r.numer == pair.0);
    assert(1 <= pair.1 * k && pair.1 * k <= RATIO_COMPONENT_LIMIT) by (nonlinear_arith)
        requires
            1 <= pair.1,
            1 <= k,
            pair.1 * k <= RATIO_COMPONENT_LIMIT,
    ;
    assert(r.denom == pair.1 * k);
    assert(1 <= p.1 * k) by (nonlinear_arith)
        requires
            1 <= p.1,
            1 <= k,
    ;
    assert(pair.0 * (p.1 * k) == p.0 * (pair.1 * k)) by (nonlinear_arith)
        requires
            pair.0 * p.1 == p.0 * pair.1,
    ;
}

/// Recomputing the aggregate density from identical provider responses
/// yields a bit-identical ratio: the estimator is a pure function of its
/// inputs, with no hidden state or order dependence.
pub proof fn lemma_font_darkness_deterministic(
    a: Seq<Option<GlyphRasterization>>,
    b: Seq<Option<GlyphRasterization>>,
    frame_a: BoundingBox,
    frame_b: BoundingBox,
)
    requires
        a == b,
        frame_a == frame_b,
    ensures
        spec_font_darkness(a, frame_a) == spec_font_darkness(b, frame_b),
{
}

/// Degenerate input: when every reported glyph box has zero width, no
/// glyph has a positive measurement area, so the aggregate reports
/// `NoMeasurableGlyphs` rather than attempting a division by zero.
pub proof fn lemma_zero_width_glyphs_unmeasurable(
    glyphs: Seq<Option<GlyphRasterization>>,
    frame: BoundingBox,
)
    requires
        frame.well_formed(),
        responses_well_formed(glyphs),
        forall|i: int|
            0 <= i < glyphs.len() ==> (#[trigger] glyphs[i] matches Some(g)
                ==> g.bounds.spec_width() == 0),
    ensures
        spec_font_darkness(glyphs, frame) == Err::<Ratio, MetricsError>(
            MetricsError::NoMeasurableGlyphs,
        ),
    decreases glyphs.len(),
{
    if glyphs.len() == 0 {
    } else {
        let prefix = glyphs.drop_last();
        assert forall|i: int|
            0 <= i < prefix.len() implies (#[trigger] prefix[i] matches Some(g)
            ==> g.bounds.spec_width() == 0) by {
            assert(prefix[i] == glyphs[i]);
        }
        assert forall|i: int| 0 <= i < prefix.len() implies opt_glyph_well_formed(
            #[trigger] prefix[i],
        ) by {
            assert(prefix[i] == glyphs[i]);
        }
        lemma_zero_width_glyphs_unmeasurable(prefix, frame);
        match glyphs.last() {
            Some(g) => {
                assert(glyphs[glyphs.len() - 1] == glyphs.last());
                assert(g.bounds.spec_width() == 0);
                assert(g.area(frame) == frame.spec_height() * 0);
                assert(!glyph_measurable(glyphs.last(), frame));
            },
            None => {
            },
        }
        assert(defined_count(glyphs, frame) == defined_count(prefix, frame));
    }
}

} // verus!
