//! Failure taxonomy shared by all calculators.
use vstd::prelude::*;

verus! {

/// Every data-dependent failure a calculator can report. None of these
/// aborts the process: each is a recoverable, typed result.
#[derive(Clone, Copy, Debug, PartialEq, Eq, Structural)]
pub enum MetricsError {
    /// A ratio operation was attempted with a zero divisor.
    DivisionByZero,
    /// A bounding box arrived with inverted extents (max below min).
    MalformedGeometry,
    /// Fewer than two lines remained after trimming the sample text, so
    /// dropping the final line would leave nothing to measure.
    InsufficientContent,
    /// Every glyph of a density test alphabet was degenerate or missing,
    /// so the aggregate density is undefined.
    NoMeasurableGlyphs,
}

} // verus!
