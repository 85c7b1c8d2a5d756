//! Analyzing a rendered sample page: extracted page text feeds the fit
//! calculator.
use vstd::prelude::*;

verus! {

use crate::errors::MetricsError;
use crate::fit::{lemma_avg_result_bounds, spec_avg_chars_per_line, text_fit_ratio};
use crate::ratio::{Ratio, RATIO_COMPONENT_LIMIT};

#[verifier::external_type_specification]
#[verifier::external_body]
pub struct ExDocument(lopdf::Document);

/// Relies on pdf_extract's `output_doc` with a `PlainTextOutput`: the plain
/// text of the document's pages, newline-delimited per visual line, or
/// `None` when the document's content cannot be converted to text.
#[verifier::external_body]
fn extract_text(document: &lopdf::Document) -> (r: Option<Vec<char>>) {
    let mut buffer = String::new();
    let extracted = {
        let mut output = pdf_extract::PlainTextOutput::new(&mut buffer);
        pdf_extract::output_doc(document, &mut output).is_ok()
    };
    if extracted {
        Some(buffer.chars().collect())
    } else {
        None
    }
}

/// Measures the characters-per-pica fit of one rendered page: extracts the
/// page's plain text and hands it to the fit calculator with the page's
/// printable width. A document from which no text can be extracted has
/// nothing to measure and reports `InsufficientContent`. Whatever text the
/// extraction produced: a zero page width never yields a ratio, and a
/// successful ratio is defined (nonzero denominator), with a non-negative
/// numerator and components small enough for the decimal conversion to
/// accept.
pub fn analyze_document(document: &lopdf::Document, width_picas: i32) -> (res: Result<
    Ratio,
    MetricsError,
>)
    ensures
        res matches Ok(r) ==> !r.is_undefined() && 0 <= r.numer <= RATIO_COMPONENT_LIMIT
            && -RATIO_COMPONENT_LIMIT <= r.denom <= RATIO_COMPONENT_LIMIT,
        width_picas == 0 ==> res is Err,
{
    let text = match extract_text(document) {
        None => {
            return Err(MetricsError::InsufficientContent);
        },
        Some(chars) => chars,
    };
    let res = text_fit_ratio(&text, width_picas);
    proof {
        if res is Ok {
            assert(text@.len() == vstd::std_specs::vec::spec_vec_len(&text));
            lemma_avg_result_bounds(text@);
            let avg = spec_avg_chars_per_line(text@)->Ok_0;
            let r = res->Ok_0;
            assert(r.denom == (avg.denom * width_picas) as i128);
            assert(avg.denom * width_picas != 0) by (nonlinear_arith)
                requires
                    avg.denom != 0,
                    width_picas != 0,
            ;
            assert({
                let p = avg.denom * (width_picas as int);
                -0x1_0000_0000_0000_0000_0000_0000 <= p <= 0x1_0000_0000_0000_0000_0000_0000
            }) by (nonlinear_arith)
                requires
                    0 < avg.denom <= 0x1_0000_0000_0000_0000,
                    -0x8000_0000 <= width_picas as int <= 0x8000_0000,
            ;
            assert(!r.is_undefined());
        }
    }
    res
}

} // verus!
