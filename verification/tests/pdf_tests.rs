use font_metrics::errors::MetricsError;
use font_metrics::pdf::analyze_document;

#[test]
fn empty_document_has_nothing_to_measure() {
    // A freshly created document has no pages, so extraction yields no
    // measurable lines whichever way it goes.
    let document = lopdf::Document::new();
    assert_eq!(analyze_document(&document, 32), Err(MetricsError::InsufficientContent));
}

#[test]
fn analyze_never_returns_a_ratio_for_zero_width() {
    let document = lopdf::Document::new();
    assert!(analyze_document(&document, 0).is_err());
}
