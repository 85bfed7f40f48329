//! The per-document result record and the orchestrator's scoring step.
//!
//! The driver around this crate loads one file's bytes, constructs two
//! independent document handles from the same bytes (so later mutation of
//! one cannot alias the other), transforms every page of the working
//! copy, and then asks this module to score only the changed pages.

use vstd::prelude::*;
use crate::decimal;
use crate::scorer;
use crate::scorer::{CompareError, PageDiffScore};
use pdfium_render::prelude::PdfDocument;

verus! {

/// Minimum qualifying page score, in parts per billion of full
/// intensity: 0.01% normalized, tuned to ignore rendering jitter while
/// catching real content exposure.
pub const MIN_AVERAGE_SCORE_PPB: u64 = 100_000;

/// One processed document's result record.
pub struct RuinResult {
    /// The processed file's identifier.
    pub file_name: String,
    /// Maximum qualifying page score, in parts per billion of full
    /// intensity; zero when no page qualifies.
    pub max_difference_ppb: u64,
    /// Comma-joined 1-based qualifying page numbers.
    pub diff_pages: String,
    /// Wall-clock time spent transforming, in microseconds.
    pub modify_micros: u64,
    /// Wall-clock time spent scoring, in microseconds.
    pub analyze_micros: u64,
}

/// The result record of a document whose transformer pass changed no
/// page: exactly zero score, an empty page list, and zero scoring time,
/// with the transform duration still reported.
pub fn short_circuit_result(file_name: String, modify_micros: u64) -> (r: RuinResult)
    ensures
        r.max_difference_ppb == 0,
        r.diff_pages@ == Seq::<char>::empty(),
        r.analyze_micros == 0,
        r.file_name@ == file_name@,
        r.modify_micros == modify_micros,
{
    RuinResult {
        file_name,
        max_difference_ppb: 0,
        diff_pages: String::new(),
        modify_micros,
        analyze_micros: 0,
    }
}

/// Scores the changed pages of one document pair. With no changed page
/// the scorer is not invoked at all — rasterization is by far the most
/// expensive step — and the result is exactly zero with an empty page
/// list. Otherwise the comparison is restricted to the changed pages at
/// the fixed minimum-average threshold: on success the result is
/// exactly the aggregation of one list of qualifying scores, each at or
/// above that threshold, with page numbers drawn in order from the
/// changed pages.
pub fn score_changed_pages(
    original: &PdfDocument,
    ruined: &PdfDocument,
    changed_pages: &Vec<u16>,
) -> (r: Result<(u64, String), CompareError>)
    ensures
        changed_pages@.len() == 0 ==> r is Ok && r->Ok_0.0 == 0 && r->Ok_0.1@ == Seq::<
            char,
        >::empty(),
        r is Ok ==> r->Ok_0.0 <= 1_000_000_000,
        r is Ok ==> exists|scores: Seq<PageDiffScore>|
            {
                &&& r->Ok_0.0 == #[trigger] scorer::max_score_ppb(scores)
                &&& r->Ok_0.1@ == decimal::dec_list_str(scorer::page_numbers_of(scores))
                &&& forall|j: int|
                    0 <= j < scores.len() ==> MIN_AVERAGE_SCORE_PPB
                        <= #[trigger] scores[j].score_ppb <= 1_000_000_000
                &&& scorer::is_subseq_of(
                    scorer::page_numbers_of(scores),
                    scorer::requested_page_numbers(changed_pages@),
                )
            },
{
    if changed_pages.len() == 0 {
        proof {
            let empty_scores = Seq::<PageDiffScore>::empty();
            assert(scorer::max_score_ppb(empty_scores) == 0);
            assert(scorer::page_numbers_of(empty_scores) =~= Seq::<usize>::empty());
            assert(decimal::dec_list_str(Seq::<usize>::empty()) == Seq::<char>::empty());
            assert(scorer::is_subseq_of(
                scorer::page_numbers_of(empty_scores),
                scorer::requested_page_numbers(changed_pages@),
            ));
        }
        return Ok((0, String::new()));
    }
    scorer::optical_compare(original, ruined, Some(changed_pages), MIN_AVERAGE_SCORE_PPB)
}

} // verus!
