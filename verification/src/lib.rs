//! Typographic measurements of a digital font, as exact integer ratios.
//!
//! Three dimensionless ratios describe a font objectively: the x-height to
//! cap-height ratio of its glyph outlines, the ink density of its rendered
//! lowercase letters, and the characters-per-pica fit of a typeset sample
//! page. All three calculators share one exact rational value type and a
//! safe conversion to an approximate decimal. The density aggregate
//! averages its per-glyph ratios exactly, under one machine-limit
//! precondition: the accumulated sum must stay representable, which a
//! run-time check tests for arbitrary inputs.

pub mod density;
pub mod errors;
pub mod fit;
pub mod font;
pub mod geometry;
pub mod latex;
pub mod pdf;
pub mod ratio;
pub mod vertical;
