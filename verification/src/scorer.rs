//! The perceptual difference scorer: a thresholded, spatially weighted
//! pixel-difference metric over before/after renderings of one page.

use vstd::prelude::*;
use crate::blur;
use crate::buffer;
use crate::buffer::GrayBuffer;
use crate::decimal;
use crate::pdf;
use pdfium_render::prelude::PdfDocument;

verus! {

/// Cutoff applied to the raw difference: discards antialiasing and
/// compression noise before any weighting.
pub const RAW_DIFF_CUTOFF: u8 = 64;

/// Cutoff applied to the blur-weighted difference: discards what little
/// weight spatially isolated noise retains.
pub const WEIGHTED_DIFF_CUTOFF: u8 = 32;

/// The thresholded raw difference of one page pair: per-pixel saturating
/// difference (only brightening counts), zeroed below the first cutoff.
pub open spec fn thresholded_diff(original: Seq<u8>, modified: Seq<u8>) -> Seq<u8> {
    buffer::cutoff_seq(buffer::diff_seq(modified, original), RAW_DIFF_CUTOFF)
}

/// Whether a page pair has any measurable change left after the first
/// cutoff; a pair without one is excluded from scoring.
pub open spec fn has_visible_diff(original: Seq<u8>, modified: Seq<u8>) -> bool {
    exists|i: int|
        0 <= i < thresholded_diff(original, modified).len() && thresholded_diff(
            original,
            modified,
        )[i] != 0
}

/// The twice-thresholded, blur-weighted difference of one page pair: the
/// thresholded difference, multiplied pointwise (normalized to the 0–255
/// range) by its own radius-2 box blur, then zeroed below the second
/// cutoff. Isolated pixels lose almost all weight; spatially coherent
/// regions keep close to their magnitude.
pub open spec fn weighted_diff(original: Seq<u8>, modified: Seq<u8>, w: int, h: int) -> Seq<u8> {
    let dt = thresholded_diff(original, modified);
    buffer::cutoff_seq(
        buffer::scaled_mul_seq(dt, blur::box_blur_spec(dt, w, h)),
        WEIGHTED_DIFF_CUTOFF,
    )
}

/// The page score: mean pixel value of the twice-thresholded weighted
/// difference, in parts per billion of full intensity.
pub open spec fn page_score_ppb(original: Seq<u8>, modified: Seq<u8>, w: int, h: int) -> int {
    buffer::mean_ppb(weighted_diff(original, modified, w, h))
}

/// Scores one page pair: `None` when the thresholded difference is
/// entirely zero (no measurable change despite the mutation), otherwise
/// the mean of the twice-thresholded, blur-weighted difference.
pub fn score_page(original: &GrayBuffer, modified: &GrayBuffer) -> (r: Option<u64>)
    requires
        original.wf(),
        modified.wf(),
        original.same_dims(*modified),
        original.width <= blur::MAX_BLUR_EXTENT,
        original.height <= blur::MAX_BLUR_EXTENT,
    ensures
        r is Some <==> has_visible_diff(original.data@, modified.data@),
        r is Some ==> r->0 == page_score_ppb(
            original.data@,
            modified.data@,
            original.width as int,
            original.height as int,
        ),
        r is Some ==> r->0 <= 1_000_000_000,
{
    let diff = buffer::subtract(modified, original);
    let diff_thresholded = buffer::threshold(&diff, RAW_DIFF_CUTOFF);
    proof {
        assert(diff_thresholded.data@ == thresholded_diff(original.data@, modified.data@));
    }
    if !buffer::has_nonzero(&diff_thresholded) {
        return None;
    }
    proof {
        let i = choose|i: int|
            0 <= i < diff_thresholded.data@.len() && diff_thresholded.data@[i] != 0;
        assert(thresholded_diff(original.data@, modified.data@)[i] != 0);
        assert(diff_thresholded.data@.len() > 0);
        assert(diff_thresholded.width * diff_thresholded.height > 0);
        assert(diff_thresholded.width >= 1 && diff_thresholded.height >= 1) by (nonlinear_arith)
            requires
                diff_thresholded.width * diff_thresholded.height > 0,
                diff_thresholded.width >= 0,
                diff_thresholded.height >= 0,
        ;
    }
    let blurred = blur::box_blur(&diff_thresholded);
    let weighted = buffer::multiply_scaled(&diff_thresholded, &blurred);
    let weighted_thresholded = buffer::threshold(&weighted, WEIGHTED_DIFF_CUTOFF);
    Some(buffer::mean_value_ppb(&weighted_thresholded))
}

/// One qualifying page's result: its 1-based page number and its score.
pub struct PageDiffScore {
    /// 1-based page number.
    pub page_number: usize,
    /// Page score in parts per billion of full intensity.
    pub score_ppb: u64,
}

/// The maximum score among a list of qualifying pages, zero when none
/// qualifies.
pub open spec fn max_score_ppb(scores: Seq<PageDiffScore>) -> int
    decreases scores.len(),
{
    if scores.len() == 0 {
        0
    } else if scores.last().score_ppb > max_score_ppb(scores.drop_last()) {
        scores.last().score_ppb as int
    } else {
        max_score_ppb(scores.drop_last())
    }
}

/// The maximum never exceeds a bound that every entry respects.
proof fn lemma_max_score_ppb_bound(scores: Seq<PageDiffScore>, bound: int)
    requires
        forall|j: int| 0 <= j < scores.len() ==> #[trigger] scores[j].score_ppb <= bound,
        bound >= 0,
    ensures
        0 <= max_score_ppb(scores) <= bound,
    decreases scores.len(),
{
    if scores.len() > 0 {
        lemma_max_score_ppb_bound(scores.drop_last(), bound);
    }
}

/// The 1-based page numbers of a list of qualifying pages, in order.
pub open spec fn page_numbers_of(scores: Seq<PageDiffScore>) -> Seq<usize> {
    scores.map_values(|p: PageDiffScore| p.page_number)
}

/// Aggregates qualifying page scores: the maximum score (zero when the
/// list is empty) and the comma-joined decimal page numbers.
pub fn aggregate_scores(scores: &Vec<PageDiffScore>) -> (r: (u64, String))
    requires
        forall|j: int|
            0 <= j < scores@.len() ==> #[trigger] scores@[j].score_ppb <= 1_000_000_000,
    ensures
        r.0 == max_score_ppb(scores@),
        r.1@ == decimal::dec_list_str(page_numbers_of(scores@)),
{
    proof {
        lemma_max_score_ppb_bound(scores@, 1_000_000_000);
    }
    let mut max: u64 = 0;
    let mut numbers: Vec<usize> = Vec::new();
    let mut i: usize = 0;
    while i < scores.len()
        invariant
            0 <= i <= scores@.len(),
            forall|j: int|
                0 <= j < scores@.len() ==> #[trigger] scores@[j].score_ppb <= 1_000_000_000,
            max == max_score_ppb(scores@.take(i as int)),
            numbers@ == page_numbers_of(scores@.take(i as int)),
        decreases scores@.len() - i,
    {
        proof {
            assert(scores@.take(i + 1 as int).drop_last() =~= scores@.take(i as int));
            lemma_max_score_ppb_bound(scores@.take(i as int), 1_000_000_000);
        }
        let entry_score = scores[i].score_ppb;
        if entry_score > max {
            max = entry_score;
        }
        numbers.push(scores[i].page_number);
        proof {
            assert(numbers@ =~= page_numbers_of(scores@.take(i + 1 as int)));
        }
        i = i + 1;
    }
    proof {
        assert(scores@.take(scores@.len() as int) =~= scores@);
    }
    let joined = decimal::format_number_list(&numbers);
    (max, joined)
}

/// Whether `xs` occurs inside `ys` in order: every element of `xs` is
/// drawn from `ys`, keeping `ys`'s order.
pub open spec fn is_subseq_of(xs: Seq<usize>, ys: Seq<usize>) -> bool
    decreases xs.len() + ys.len(),
{
    if xs.len() == 0 {
        true
    } else if ys.len() == 0 {
        false
    } else if xs[0] == ys[0] {
        is_subseq_of(xs.drop_first(), ys.drop_first())
    } else {
        is_subseq_of(xs, ys.drop_first())
    }
}

/// A subsequence stays one when the containing sequence grows at the
/// end.
proof fn lemma_subseq_extend(xs: Seq<usize>, ys: Seq<usize>, a: usize)
    requires
        is_subseq_of(xs, ys),
    ensures
        is_subseq_of(xs, ys.push(a)),
    decreases xs.len() + ys.len(),
{
    if xs.len() == 0 {
    } else {
        assert(ys.push(a)[0] == ys[0]);
        assert(ys.push(a).drop_first() =~= ys.drop_first().push(a));
        if xs[0] == ys[0] {
            lemma_subseq_extend(xs.drop_first(), ys.drop_first(), a);
        } else {
            lemma_subseq_extend(xs, ys.drop_first(), a);
        }
    }
}

/// Appending the same element to both sequences preserves the
/// subsequence relation.
proof fn lemma_subseq_push(xs: Seq<usize>, ys: Seq<usize>, a: usize)
    requires
        is_subseq_of(xs, ys),
    ensures
        is_subseq_of(xs.push(a), ys.push(a)),
    decreases xs.len() + ys.len(),
{
    if xs.len() == 0 {
        if ys.len() == 0 {
            assert(xs.push(a)[0] == a && ys.push(a)[0] == a);
            assert(xs.push(a).drop_first() =~= Seq::<usize>::empty());
            assert(ys.push(a).drop_first() =~= Seq::<usize>::empty());
            assert(is_subseq_of(xs.push(a).drop_first(), ys.push(a).drop_first()));
        } else if ys[0] == a {
            assert(xs.push(a)[0] == a && ys.push(a)[0] == a);
            assert(xs.push(a).drop_first() =~= Seq::<usize>::empty());
            assert(is_subseq_of(xs.push(a).drop_first(), ys.push(a).drop_first()));
        } else {
            assert(xs.push(a)[0] == a && ys.push(a)[0] == ys[0]);
            assert(ys.push(a).drop_first() =~= ys.drop_first().push(a));
            assert(is_subseq_of(xs, ys.drop_first()));
            lemma_subseq_push(xs, ys.drop_first(), a);
        }
    } else {
        if ys.len() == 0 {
            assert(!is_subseq_of(xs, ys));
        } else {
            assert(xs.push(a)[0] == xs[0] && ys.push(a)[0] == ys[0]);
            assert(xs.push(a).drop_first() =~= xs.drop_first().push(a));
            assert(ys.push(a).drop_first() =~= ys.drop_first().push(a));
            if xs[0] == ys[0] {
                lemma_subseq_push(xs.drop_first(), ys.drop_first(), a);
            } else {
                lemma_subseq_push(xs, ys.drop_first(), a);
            }
        }
    }
}

/// The 1-based page numbers of a list of requested 0-based page
/// indices.
pub open spec fn requested_page_numbers(pages: Seq<u16>) -> Seq<usize> {
    pages.map_values(|p: u16| (p + 1) as usize)
}

/// Why a document pair could not be compared. Rendering failures are
/// fatal for the current file's scoring step; a dimension mismatch
/// between the two renderings of one page index is an internal
/// consistency failure, since both documents are loaded from identical
/// bytes before mutation.
pub enum CompareError {
    /// The toolkit failed to load or rasterize this 1-based page.
    Render { page_number: usize },
    /// The two renderings of this 1-based page disagree in size.
    DimensionMismatch { page_number: usize },
    /// A rendering of this 1-based page is too large for the blur's
    /// 32-bit running sums.
    RenderTooLarge { page_number: usize },
}

/// Compares matching pages of two documents rendered at identical
/// resolution and aggregates per-page difference scores.
///
/// For each requested page index (every page when `pages` is `None`),
/// both documents are rasterized to grayscale; a page qualifies when its
/// thresholded difference is not entirely zero and its score reaches
/// `min_average_ppb`. Returns the maximum qualifying score (zero when no
/// page qualifies) and the comma-joined 1-based qualifying page numbers
/// in request order: on success the result is exactly the aggregation
/// of one list of qualifying scores, each at or above the minimum, and
/// the page numbers are drawn in order from the requested pages.
pub fn optical_compare(
    original: &PdfDocument,
    modified: &PdfDocument,
    pages: Option<&Vec<u16>>,
    min_average_ppb: u64,
) -> (r: Result<(u64, String), CompareError>)
    ensures
        r is Ok ==> r->Ok_0.0 <= 1_000_000_000,
        pages is Some && pages->0@.len() == 0 ==> r is Ok && r->Ok_0.0 == 0
            && r->Ok_0.1@ == Seq::<char>::empty(),
        r is Ok ==> exists|scores: Seq<PageDiffScore>|
            {
                &&& r->Ok_0.0 == #[trigger] max_score_ppb(scores)
                &&& r->Ok_0.1@ == decimal::dec_list_str(page_numbers_of(scores))
                &&& forall|j: int|
                    0 <= j < scores.len() ==> min_average_ppb <= #[trigger] scores[j].score_ppb
                        <= 1_000_000_000
                &&& (pages is Some ==> is_subseq_of(
                    page_numbers_of(scores),
                    requested_page_numbers(pages->0@),
                ))
            },
{
    let ghost requested = requested_page_numbers(pages->0@);
    let mut targets: Vec<i32> = Vec::new();
    match pages {
        Some(list) => {
            let mut j: usize = 0;
            while j < list.len()
                invariant
                    0 <= j <= list@.len(),
                    targets@.len() == j,
                    forall|k: int| 0 <= k < j ==> #[trigger] targets@[k] == list@[k] as i32,
                    forall|k: int| 0 <= k < j ==> 0 <= #[trigger] targets@[k] < 0x1_0000,
                decreases list@.len() - j,
            {
                targets.push(list[j] as i32);
                j = j + 1;
            }
        },
        None => {
            let count = pdf::page_count(original);
            let mut p: i32 = 0;
            while p < count
                invariant
                    0 <= p,
                    forall|k: int| 0 <= k < targets@.len() ==> 0 <= #[trigger] targets@[k],
                decreases count - p,
            {
                targets.push(p);
                p = p + 1;
            }
        },
    }
    let mut qualifying: Vec<PageDiffScore> = Vec::new();
    let mut t: usize = 0;
    while t < targets.len()
        invariant
            0 <= t <= targets@.len(),
            forall|k: int| 0 <= k < targets@.len() ==> 0 <= #[trigger] targets@[k],
            forall|j: int|
                0 <= j < qualifying@.len() ==> min_average_ppb
                    <= #[trigger] qualifying@[j].score_ppb <= 1_000_000_000,
            pages is Some ==> targets@.len() == pages->0@.len(),
            pages is Some ==> forall|k: int|
                0 <= k < targets@.len() ==> #[trigger] targets@[k] == pages->0@[k] as i32,
            pages is Some ==> is_subseq_of(page_numbers_of(qualifying@), requested.take(t as int)),
            requested == requested_page_numbers(pages->0@),
            pages is Some && pages->0@.len() == 0 ==> qualifying@.len() == 0,
        decreases targets@.len() - t,
    {
        let index = targets[t];
        let page_number = (index as usize) + 1;
        proof {
            if pages is Some {
                assert(requested.take(t + 1 as int) =~= requested.take(t as int).push(
                    requested[t as int],
                ));
                assert(requested[t as int] == page_number);
            }
        }
        let rendered_original = match pdf::render_page_grayscale(original, index) {
            Some(buf) => buf,
            None => { return Err(CompareError::Render { page_number }); },
        };
        let rendered_modified = match pdf::render_page_grayscale(modified, index) {
            Some(buf) => buf,
            None => { return Err(CompareError::Render { page_number }); },
        };
        if rendered_original.width != rendered_modified.width || rendered_original.height
            != rendered_modified.height {
            return Err(CompareError::DimensionMismatch { page_number });
        }
        if rendered_original.width > blur::MAX_BLUR_EXTENT || rendered_original.height
            > blur::MAX_BLUR_EXTENT {
            return Err(CompareError::RenderTooLarge { page_number });
        }
        let mut pushed: bool = false;
        match score_page(&rendered_original, &rendered_modified) {
            Some(score) => {
                if score >= min_average_ppb {
                    proof {
                        if pages is Some {
                            assert(page_numbers_of(
                                qualifying@.push(PageDiffScore { page_number, score_ppb: score }),
                            ) =~= page_numbers_of(qualifying@).push(page_number));
                            lemma_subseq_push(
                                page_numbers_of(qualifying@),
                                requested.take(t as int),
                                page_number,
                            );
                        }
                    }
                    qualifying.push(PageDiffScore { page_number, score_ppb: score });
                    pushed = true;
                }
            },
            None => {},
        }
        proof {
            if pages is Some && !pushed {
                lemma_subseq_extend(
                    page_numbers_of(qualifying@),
                    requested.take(t as int),
                    requested[t as int],
                );
            }
        }
        t = t + 1;
    }
    let (max, joined) = aggregate_scores(&qualifying);
    proof {
        lemma_max_score_ppb_bound(qualifying@, 1_000_000_000);
        if pages is Some {
            assert(requested.take(targets@.len() as int) =~= requested);
        }
        if pages is Some && pages->0@.len() == 0 {
            assert(qualifying@ =~= Seq::<PageDiffScore>::empty());
            assert(max_score_ppb(qualifying@) == 0);
            assert(page_numbers_of(qualifying@) =~= Seq::<usize>::empty());
            assert(decimal::dec_list_str(Seq::<usize>::empty()) == Seq::<char>::empty());
        }
        assert({
            &&& max == max_score_ppb(qualifying@)
            &&& joined@ == decimal::dec_list_str(page_numbers_of(qualifying@))
            &&& forall|j: int|
                0 <= j < qualifying@.len() ==> min_average_ppb
                    <= #[trigger] qualifying@[j].score_ppb <= 1_000_000_000
            &&& (pages is Some ==> is_subseq_of(
                page_numbers_of(qualifying@),
                requested_page_numbers(pages->0@),
            ))
        });
    }
    Ok((max, joined))
}

} // verus!
