//! The laws the transformer and the scorer obey, stated and proved over
//! the same spec functions their contracts use.

use vstd::prelude::*;
use crate::blur::{hpass, hwindow_sum, vpass, vwindow_sum, box_blur_spec};
use crate::buffer::sum_seq;
use crate::scorer::{page_score_ppb, thresholded_diff, weighted_diff};
use crate::strategy::StrategySet;
use crate::transform::{
    Annotation, PageObject, annotation_needs_suppress, annotation_transformed,
    count_mutated_objects, count_suppressed_annotations, object_mutated, object_transformed,
};
use vstd::arithmetic::div_mod::{
    lemma_div_is_ordered, lemma_fundamental_div_mod, lemma_fundamental_div_mod_converse,
};

verus! {

/// After one pass, no object qualifies for mutation any more: a stripped
/// path is unfilled and stroked, a blanked image is already blank, and
/// an object the pass left alone did not qualify in the first place.
proof fn lemma_object_transform_settles(before: PageObject, after: PageObject, strat: StrategySet)
    requires
        object_transformed(before, after, strat),
    ensures
        !object_mutated(after, strat),
        !object_mutated(after, strat) ==> object_transformed(after, after, strat),
{
    match before {
        PageObject::Image(img) => {
            if crate::transform::image_needs_blank(img, strat) {
                match after {
                    PageObject::Image(ni) => {
                        assert(forall|i: int| 0 <= i < ni.pixels@.len() ==> ni.pixels@[i] == 0);
                    },
                    _ => {},
                }
            }
        },
        _ => {},
    }
}

/// After one pass, no annotation qualifies for suppression any more: a
/// suppressed annotation is hidden, and one the pass left alone did not
/// qualify in the first place.
proof fn lemma_annotation_transform_settles(
    before: Annotation,
    after: Annotation,
    strat: StrategySet,
)
    requires
        annotation_transformed(before, after, strat),
    ensures
        !annotation_needs_suppress(after, strat),
        annotation_transformed(after, after, strat),
{
}

/// No mutated object is counted in a sequence where none qualifies.
proof fn lemma_count_mutated_zero(objects: Seq<PageObject>, strat: StrategySet)
    requires
        forall|i: int| 0 <= i < objects.len() ==> !object_mutated(#[trigger] objects[i], strat),
    ensures
        count_mutated_objects(objects, strat) == 0,
    decreases objects.len(),
{
    if objects.len() > 0 {
        assert(objects.last() == objects[objects.len() - 1]);
        lemma_count_mutated_zero(objects.drop_last(), strat);
    }
}

/// No suppressed annotation is counted in a sequence where none
/// qualifies.
proof fn lemma_count_suppressed_zero(annots: Seq<Annotation>, strat: StrategySet)
    requires
        forall|i: int|
            0 <= i < annots.len() ==> !annotation_needs_suppress(#[trigger] annots[i], strat),
    ensures
        count_suppressed_annotations(annots, strat) == 0,
    decreases annots.len(),
{
    if annots.len() > 0 {
        assert(annots.last() == annots[annots.len() - 1]);
        lemma_count_suppressed_zero(annots.drop_last(), strat);
    }
}

/// Idempotence of the page transformer: a page that one pass has already
/// transformed offers a second pass of the same strategy nothing to do.
/// The second pass counts zero mutated objects and zero suppressed
/// annotations, so it reports the page as unchanged and leaves every
/// object and annotation exactly as it found it.
pub proof fn law_transform_idempotent(
    before_objects: Seq<PageObject>,
    after_objects: Seq<PageObject>,
    before_annots: Seq<Annotation>,
    after_annots: Seq<Annotation>,
    strat: StrategySet,
)
    requires
        after_objects.len() == before_objects.len(),
        forall|i: int|
            0 <= i < before_objects.len() ==> object_transformed(
                before_objects[i],
                #[trigger] after_objects[i],
                strat,
            ),
        after_annots.len() == before_annots.len(),
        forall|i: int|
            0 <= i < before_annots.len() ==> annotation_transformed(
                before_annots[i],
                #[trigger] after_annots[i],
                strat,
            ),
    ensures
        count_mutated_objects(after_objects, strat) == 0,
        count_suppressed_annotations(after_annots, strat) == 0,
        forall|i: int|
            0 <= i < after_objects.len() ==> object_transformed(
                after_objects[i],
                #[trigger] after_objects[i],
                strat,
            ),
        forall|i: int|
            0 <= i < after_annots.len() ==> annotation_transformed(
                after_annots[i],
                #[trigger] after_annots[i],
                strat,
            ),
{
    assert forall|i: int| 0 <= i < after_objects.len() implies !object_mutated(
        #[trigger] after_objects[i],
        strat,
    ) && object_transformed(after_objects[i], after_objects[i], strat) by {
        lemma_object_transform_settles(before_objects[i], after_objects[i], strat);
    }
    assert forall|i: int| 0 <= i < after_annots.len() implies !annotation_needs_suppress(
        #[trigger] after_annots[i],
        strat,
    ) && annotation_transformed(after_annots[i], after_annots[i], strat) by {
        lemma_annotation_transform_settles(before_annots[i], after_annots[i], strat);
    }
    lemma_count_mutated_zero(after_objects, strat);
    lemma_count_suppressed_zero(after_annots, strat);
}

/// A row-major index decomposes into a row and column inside the grid.
proof fn lemma_grid_coords(w: int, h: int, i: int)
    requires
        w >= 1,
        h >= 1,
        0 <= i < w * h,
    ensures
        0 <= i % w < w,
        0 <= i / w < h,
        (i / w) * w + (i % w) == i,
{
    lemma_fundamental_div_mod(i, w);
    vstd::arithmetic::div_mod::lemma_mod_bound(i, w);
    assert((i / w) * w + (i % w) == i) by {
        assert(i == w * (i / w) + i % w);
        assert(w * (i / w) == (i / w) * w) by (nonlinear_arith);
    }
    assert(i / w >= 0) by {
        if i / w < 0 {
            assert(w * (i / w) <= w * (-1)) by (nonlinear_arith)
                requires w >= 1 && i / w <= -1;
        }
    }
    assert(i / w < h) by {
        if i / w >= h {
            assert(w * (i / w) >= w * h) by (nonlinear_arith)
                requires w >= 1 && i / w >= h;
        }
    }
}

/// A row and column inside the grid form a valid row-major index.
proof fn lemma_grid_index(w: int, h: int, x: int, y: int)
    requires
        w >= 1,
        h >= 1,
        0 <= x < w,
        0 <= y < h,
    ensures
        0 <= y * w + x < w * h,
{
    assert(y * w + x < w * h) by (nonlinear_arith)
        requires 0 <= x < w && 0 <= y <= h - 1 && w >= 1;
    assert(0 <= y * w + x) by (nonlinear_arith)
        requires x >= 0 && y >= 0 && w >= 1;
}

/// Pointwise order of two grids is preserved by the five-wide horizontal
/// window sum, which also stays within five full intensities.
proof fn lemma_hwindow_monotone(s1: Seq<u8>, s2: Seq<u8>, w: int, h: int, x: int, y: int)
    requires
        w >= 1,
        h >= 1,
        s1.len() == w * h,
        s2.len() == w * h,
        forall|i: int| 0 <= i < s1.len() ==> #[trigger] s1[i] <= #[trigger] s2[i],
        0 <= x < w,
        0 <= y < h,
    ensures
        hwindow_sum(s1, w, x, y) <= hwindow_sum(s2, w, x, y),
        0 <= hwindow_sum(s1, w, x, y) <= 5 * 255,
        0 <= hwindow_sum(s2, w, x, y) <= 5 * 255,
{
    lemma_grid_index(w, h, crate::blur::clamp_idx(x - 2, w), y);
    lemma_grid_index(w, h, crate::blur::clamp_idx(x - 1, w), y);
    lemma_grid_index(w, h, crate::blur::clamp_idx(x, w), y);
    lemma_grid_index(w, h, crate::blur::clamp_idx(x + 1, w), y);
    lemma_grid_index(w, h, crate::blur::clamp_idx(x + 2, w), y);
}

/// Pointwise order of two grids is preserved by the five-tall vertical
/// window sum, which also stays within five full intensities.
proof fn lemma_vwindow_monotone(s1: Seq<u8>, s2: Seq<u8>, w: int, h: int, x: int, y: int)
    requires
        w >= 1,
        h >= 1,
        s1.len() == w * h,
        s2.len() == w * h,
        forall|i: int| 0 <= i < s1.len() ==> #[trigger] s1[i] <= #[trigger] s2[i],
        0 <= x < w,
        0 <= y < h,
    ensures
        vwindow_sum(s1, w, h, x, y) <= vwindow_sum(s2, w, h, x, y),
        0 <= vwindow_sum(s1, w, h, x, y) <= 5 * 255,
        0 <= vwindow_sum(s2, w, h, x, y) <= 5 * 255,
{
    lemma_grid_index(w, h, x, crate::blur::clamp_idx(y - 2, h));
    lemma_grid_index(w, h, x, crate::blur::clamp_idx(y - 1, h));
    lemma_grid_index(w, h, x, crate::blur::clamp_idx(y, h));
    lemma_grid_index(w, h, x, crate::blur::clamp_idx(y + 1, h));
    lemma_grid_index(w, h, x, crate::blur::clamp_idx(y + 2, h));
}

/// Pointwise order of two grids is preserved by the horizontal mean
/// pass.
proof fn lemma_hpass_monotone(s1: Seq<u8>, s2: Seq<u8>, w: int, h: int)
    requires
        w >= 1,
        h >= 1,
        s1.len() == w * h,
        s2.len() == w * h,
        forall|i: int| 0 <= i < s1.len() ==> #[trigger] s1[i] <= #[trigger] s2[i],
    ensures
        forall|i: int|
            0 <= i < w * h ==> #[trigger] hpass(s1, w, h)[i] <= #[trigger] hpass(s2, w, h)[i],
{
    assert forall|i: int| 0 <= i < w * h implies #[trigger] hpass(s1, w, h)[i] <= #[trigger] hpass(
        s2,
        w,
        h,
    )[i] by {
        lemma_grid_coords(w, h, i);
        let x = i % w;
        let y = i / w;
        lemma_hwindow_monotone(s1, s2, w, h, x, y);
        lemma_div_is_ordered(hwindow_sum(s1, w, x, y), hwindow_sum(s2, w, x, y), 5);
    }
}

/// Pointwise order of two grids is preserved by the vertical mean pass.
proof fn lemma_vpass_monotone(s1: Seq<u8>, s2: Seq<u8>, w: int, h: int)
    requires
        w >= 1,
        h >= 1,
        s1.len() == w * h,
        s2.len() == w * h,
        forall|i: int| 0 <= i < s1.len() ==> #[trigger] s1[i] <= #[trigger] s2[i],
    ensures
        forall|i: int|
            0 <= i < w * h ==> #[trigger] vpass(s1, w, h)[i] <= #[trigger] vpass(s2, w, h)[i],
{
    assert forall|i: int| 0 <= i < w * h implies #[trigger] vpass(s1, w, h)[i] <= #[trigger] vpass(
        s2,
        w,
        h,
    )[i] by {
        lemma_grid_coords(w, h, i);
        let x = i % w;
        let y = i / w;
        lemma_vwindow_monotone(s1, s2, w, h, x, y);
        lemma_div_is_ordered(vwindow_sum(s1, w, h, x, y), vwindow_sum(s2, w, h, x, y), 5);
    }
}

/// Pointwise order of two grids is preserved by the radius-2 box blur.
proof fn lemma_blur_monotone(s1: Seq<u8>, s2: Seq<u8>, w: int, h: int)
    requires
        w >= 1,
        h >= 1,
        s1.len() == w * h,
        s2.len() == w * h,
        forall|i: int| 0 <= i < s1.len() ==> #[trigger] s1[i] <= #[trigger] s2[i],
    ensures
        forall|i: int|
            0 <= i < w * h ==> #[trigger] box_blur_spec(s1, w, h)[i] <= #[trigger] box_blur_spec(
                s2,
                w,
                h,
            )[i],
{
    lemma_hpass_monotone(s1, s2, w, h);
    lemma_vpass_monotone(hpass(s1, w, h), hpass(s2, w, h), w, h);
}

/// Pointwise order of two equally long pixel sequences is preserved by
/// their sums.
proof fn lemma_sum_seq_monotone(s1: Seq<u8>, s2: Seq<u8>)
    requires
        s1.len() == s2.len(),
        forall|i: int| 0 <= i < s1.len() ==> #[trigger] s1[i] <= #[trigger] s2[i],
    ensures
        sum_seq(s1) <= sum_seq(s2),
    decreases s1.len(),
{
    if s1.len() > 0 {
        assert(s1.last() == s1[s1.len() - 1] && s2.last() == s2[s2.len() - 1]);
        lemma_sum_seq_monotone(s1.drop_last(), s2.drop_last());
    }
}

/// Scorer monotonicity: holding the original rendering fixed, scaling up
/// the modified rendering pointwise — and with it the magnitude of any
/// injected difference region — cannot decrease the page score. Every
/// stage of the pipeline (saturating difference, both cutoffs, the box
/// blur and the normalized product) is monotone, and so is the final
/// mean.
pub proof fn law_scorer_monotone(original: Seq<u8>, m1: Seq<u8>, m2: Seq<u8>, w: int, h: int)
    requires
        w >= 1,
        h >= 1,
        original.len() == w * h,
        m1.len() == w * h,
        m2.len() == w * h,
        forall|i: int| 0 <= i < m1.len() ==> #[trigger] m1[i] <= #[trigger] m2[i],
    ensures
        page_score_ppb(original, m1, w, h) <= page_score_ppb(original, m2, w, h),
{
    let dt1 = thresholded_diff(original, m1);
    let dt2 = thresholded_diff(original, m2);
    assert(dt1.len() == w * h && dt2.len() == w * h);
    assert forall|i: int| 0 <= i < dt1.len() implies #[trigger] dt1[i] <= #[trigger] dt2[i] by {}
    lemma_blur_monotone(dt1, dt2, w, h);
    let wd1 = weighted_diff(original, m1, w, h);
    let wd2 = weighted_diff(original, m2, w, h);
    assert forall|i: int| 0 <= i < wd1.len() implies #[trigger] wd1[i] <= #[trigger] wd2[i] by {
        let b1 = box_blur_spec(dt1, w, h)[i];
        let b2 = box_blur_spec(dt2, w, h)[i];
        assert((dt1[i] as int) * (b1 as int) <= (dt2[i] as int) * (b2 as int))
            by (nonlinear_arith)
            requires 0 <= dt1[i] <= dt2[i] && 0 <= b1 <= b2;
        lemma_div_is_ordered((dt1[i] as int) * (b1 as int), (dt2[i] as int) * (b2 as int), 255);
        assert((dt1[i] as int) * (b1 as int) <= 255 * 255) by (nonlinear_arith)
            requires 0 <= dt1[i] <= 255 && 0 <= b1 <= 255;
        assert((dt2[i] as int) * (b2 as int) <= 255 * 255) by (nonlinear_arith)
            requires 0 <= dt2[i] <= 255 && 0 <= b2 <= 255;
    }
    lemma_sum_seq_monotone(wd1, wd2);
    assert(w * h >= 1) by (nonlinear_arith)
        requires w >= 1 && h >= 1;
    crate::buffer::lemma_sum_seq_bounds(wd1);
    crate::buffer::lemma_sum_seq_bounds(wd2);
    lemma_div_is_ordered(
        sum_seq(wd1) * 1_000_000_000,
        sum_seq(wd2) * 1_000_000_000,
        255 * wd1.len() as int,
    );
}

/// A pixel sequence of zeroes sums to zero.
proof fn lemma_sum_seq_zero(s: Seq<u8>)
    requires
        forall|i: int| 0 <= i < s.len() ==> s[i] == 0,
    ensures
        sum_seq(s) == 0,
    decreases s.len(),
{
    if s.len() > 0 {
        assert(s.last() == s[s.len() - 1]);
        lemma_sum_seq_zero(s.drop_last());
    }
}

/// The coordinates of a row-major index are recovered by division.
proof fn lemma_coords_of_index(w: int, x: int, y: int)
    requires
        w >= 1,
        0 <= x < w,
        0 <= y,
    ensures
        (y * w + x) / w == y,
        (y * w + x) % w == x,
{
    lemma_fundamental_div_mod_converse(y * w + x, w, y, x);
}

/// On a grid whose only nonzero pixel sits at an interior column `x0` of
/// row `y0`, the horizontal pass vanishes off row `y0` and stays at or
/// below 51 — one full-intensity pixel spread over a five-wide window —
/// on it.
proof fn lemma_hpass_isolated(dt: Seq<u8>, w: int, h: int, x0: int, y0: int, x: int, y: int)
    requires
        w >= 1,
        h >= 1,
        dt.len() == w * h,
        1 <= x0 <= w - 2,
        0 <= y0 < h,
        forall|i: int| 0 <= i < w * h && i != y0 * w + x0 ==> dt[i] == 0,
        0 <= x < w,
        0 <= y < h,
    ensures
        y != y0 ==> hpass(dt, w, h)[y * w + x] == 0,
        hpass(dt, w, h)[y * w + x] <= 51,
{
    let i = y * w + x;
    let p0 = y0 * w + x0;
    lemma_grid_index(w, h, x, y);
    lemma_coords_of_index(w, x, y);
    let c0 = crate::blur::clamp_idx(x - 2, w);
    let c1 = crate::blur::clamp_idx(x - 1, w);
    let c2 = crate::blur::clamp_idx(x, w);
    let c3 = crate::blur::clamp_idx(x + 1, w);
    let c4 = crate::blur::clamp_idx(x + 2, w);
    lemma_grid_index(w, h, c0, y);
    lemma_grid_index(w, h, c1, y);
    lemma_grid_index(w, h, c2, y);
    lemma_grid_index(w, h, c3, y);
    lemma_grid_index(w, h, c4, y);
    assert(y * w + c0 == p0 ==> y == y0 && c0 == x0) by {
        lemma_coords_of_index(w, c0, y);
        lemma_coords_of_index(w, x0, y0);
    }
    assert(y * w + c1 == p0 ==> y == y0 && c1 == x0) by {
        lemma_coords_of_index(w, c1, y);
        lemma_coords_of_index(w, x0, y0);
    }
    assert(y * w + c2 == p0 ==> y == y0 && c2 == x0) by {
        lemma_coords_of_index(w, c2, y);
        lemma_coords_of_index(w, x0, y0);
    }
    assert(y * w + c3 == p0 ==> y == y0 && c3 == x0) by {
        lemma_coords_of_index(w, c3, y);
        lemma_coords_of_index(w, x0, y0);
    }
    assert(y * w + c4 == p0 ==> y == y0 && c4 == x0) by {
        lemma_coords_of_index(w, c4, y);
        lemma_coords_of_index(w, x0, y0);
    }
    // The clamp can only produce a boundary column, never the interior
    // x0, so a window cell reads x0 only from its unclamped position.
    assert(c0 == x0 ==> x - 2 == x0);
    assert(c1 == x0 ==> x - 1 == x0);
    assert(c2 == x0 ==> x == x0);
    assert(c3 == x0 ==> x + 1 == x0);
    assert(c4 == x0 ==> x + 2 == x0);
    assert(hwindow_sum(dt, w, x, y) <= 255);
    if y != y0 {
        assert(hwindow_sum(dt, w, x, y) == 0);
    }
}

/// On such a grid the blur at the isolated pixel itself is at most 10:
/// at most 51 from the horizontal pass, spread over a five-tall window.
proof fn lemma_blur_at_isolated(dt: Seq<u8>, w: int, h: int, x0: int, y0: int)
    requires
        w >= 1,
        h >= 1,
        dt.len() == w * h,
        1 <= x0 <= w - 2,
        1 <= y0 <= h - 2,
        forall|i: int| 0 <= i < w * h && i != y0 * w + x0 ==> dt[i] == 0,
    ensures
        box_blur_spec(dt, w, h)[y0 * w + x0] <= 10,
{
    let hp = hpass(dt, w, h);
    let p0 = y0 * w + x0;
    lemma_grid_index(w, h, x0, y0);
    lemma_coords_of_index(w, x0, y0);
    let r0 = crate::blur::clamp_idx(y0 - 2, h);
    let r1 = crate::blur::clamp_idx(y0 - 1, h);
    let r2 = crate::blur::clamp_idx(y0, h);
    let r3 = crate::blur::clamp_idx(y0 + 1, h);
    let r4 = crate::blur::clamp_idx(y0 + 2, h);
    lemma_hpass_isolated(dt, w, h, x0, y0, x0, r0);
    lemma_hpass_isolated(dt, w, h, x0, y0, x0, r1);
    lemma_hpass_isolated(dt, w, h, x0, y0, x0, r2);
    lemma_hpass_isolated(dt, w, h, x0, y0, x0, r3);
    lemma_hpass_isolated(dt, w, h, x0, y0, x0, r4);
    // The clamp can only produce a boundary row, never the interior y0,
    // so a window cell reads row y0 only from its unclamped position.
    assert(r0 == y0 ==> y0 - 2 == y0);
    assert(r1 == y0 ==> y0 - 1 == y0);
    assert(r3 == y0 ==> y0 + 1 == y0);
    assert(r4 == y0 ==> y0 + 2 == y0);
    assert(vwindow_sum(hp, w, h, x0, y0) <= 51);
    assert(box_blur_spec(dt, w, h)[p0] == (vwindow_sum(hp, w, h, x0, y0) / 5) as u8);
}

/// Noise rejection: when the thresholded difference of a page pair holds
/// a single nonzero pixel, isolated at an interior position, the
/// blur-weighting step starves it of local density and the final page
/// score is exactly zero — below any positive minimum threshold. (At
/// one of the four grid corners the repeated-border padding can count
/// the pixel nine times, so a corner pixel may survive; the law is
/// stated for the interior.)
pub proof fn law_isolated_pixel_rejected(
    original: Seq<u8>,
    modified: Seq<u8>,
    w: int,
    h: int,
    x0: int,
    y0: int,
)
    requires
        w >= 1,
        h >= 1,
        original.len() == w * h,
        modified.len() == w * h,
        1 <= x0 <= w - 2,
        1 <= y0 <= h - 2,
        forall|i: int|
            0 <= i < w * h && i != y0 * w + x0 ==> thresholded_diff(original, modified)[i] == 0,
    ensures
        page_score_ppb(original, modified, w, h) == 0,
{
    let dt = thresholded_diff(original, modified);
    let p0 = y0 * w + x0;
    lemma_grid_index(w, h, x0, y0);
    lemma_blur_at_isolated(dt, w, h, x0, y0);
    let blur = box_blur_spec(dt, w, h);
    let wd = weighted_diff(original, modified, w, h);
    assert forall|i: int| 0 <= i < wd.len() implies wd[i] == 0 by {
        if i == p0 {
            assert((dt[p0] as int) * (blur[p0] as int) <= 255 * 10) by (nonlinear_arith)
                requires 0 <= dt[p0] <= 255 && 0 <= blur[p0] <= 10;
        }
    }
    lemma_sum_seq_zero(wd);
    assert(wd.len() == w * h);
    assert(w * h >= 1) by (nonlinear_arith)
        requires w >= 1 && h >= 1;
    vstd::arithmetic::div_mod::lemma_div_of0(255 * wd.len() as int);
}

/// Splitting a pixel sequence splits its sum.
proof fn lemma_sum_concat(a: Seq<u8>, b: Seq<u8>)
    ensures
        sum_seq(a + b) == sum_seq(a) + sum_seq(b),
    decreases b.len(),
{
    if b.len() == 0 {
        assert(a + b =~= a);
    } else {
        assert((a + b).drop_last() =~= a + b.drop_last());
        assert((a + b).last() == b.last());
        lemma_sum_concat(a, b.drop_last());
    }
}

/// A sequence whose every pixel reaches `v` sums to at least `v` per
/// pixel.
proof fn lemma_sum_uniform_lower(t: Seq<u8>, v: int)
    requires
        0 <= v,
        forall|j: int| 0 <= j < t.len() ==> v <= #[trigger] t[j],
    ensures
        sum_seq(t) >= t.len() * v,
    decreases t.len(),
{
    if t.len() == 0 {
        assert(t.len() * v == 0) by (nonlinear_arith)
            requires t.len() == 0;
    } else {
        assert(t.last() == t[t.len() - 1]);
        lemma_sum_uniform_lower(t.drop_last(), v);
        assert(t.len() * v == (t.len() - 1) * v + v) by (nonlinear_arith);
    }
}

/// The first `r` rows of a rectangular region contribute at least their
/// full area times the per-pixel floor to the prefix sum.
proof fn lemma_block_rows_lower(
    s: Seq<u8>,
    w: int,
    h: int,
    x0: int,
    y0: int,
    bw: int,
    bh: int,
    v: int,
    r: int,
)
    requires
        w >= 1,
        h >= 1,
        s.len() == w * h,
        0 <= x0,
        0 <= y0,
        bw >= 0,
        x0 + bw <= w,
        y0 + bh <= h,
        0 <= v,
        0 <= r <= bh,
        forall|x: int, y: int|
            x0 <= x < x0 + bw && y0 <= y < y0 + bh ==> v <= #[trigger] s[y * w + x],
    ensures
        sum_seq(s.take((y0 + r) * w)) >= r * (bw * v),
    decreases r,
{
    assert((y0 + r) * w <= h * w && (y0 + r) * w >= 0) by (nonlinear_arith)
        requires 0 <= y0 + r <= h && w >= 1;
    assert(h * w == w * h) by (nonlinear_arith);
    if r == 0 {
        crate::buffer::lemma_sum_seq_bounds(s.take((y0 + r) * w));
        assert(r * (bw * v) == 0) by (nonlinear_arith)
            requires r == 0;
    } else {
        lemma_block_rows_lower(s, w, h, x0, y0, bw, bh, v, r - 1);
        let row = y0 + r - 1;
        let cur = row * w;
        let next = (y0 + r) * w;
        assert((y0 + r) * w == (y0 + r - 1) * w + w) by (nonlinear_arith);
        assert(next == cur + w);
        assert(0 <= (y0 + r - 1) * w) by (nonlinear_arith)
            requires y0 + r - 1 >= 0 && w >= 1;
        let prefix = s.take(cur);
        let row_seq = s.subrange(cur, next);
        assert(s.take(next) =~= prefix + row_seq);
        lemma_sum_concat(prefix, row_seq);
        let left = row_seq.subrange(0, x0);
        let cells = row_seq.subrange(x0, x0 + bw);
        let right = row_seq.subrange(x0 + bw, w);
        assert(row_seq =~= left + cells + right);
        lemma_sum_concat(left + cells, right);
        lemma_sum_concat(left, cells);
        crate::buffer::lemma_sum_seq_bounds(left);
        crate::buffer::lemma_sum_seq_bounds(right);
        assert forall|j: int| 0 <= j < cells.len() implies v <= #[trigger] cells[j] by {
            assert(cells[j] == s[row * w + (x0 + j)]);
        }
        lemma_sum_uniform_lower(cells, v);
        assert((r - 1) * (bw * v) + bw * v == r * (bw * v)) by (nonlinear_arith);
    }
}

/// A rectangular region whose every pixel reaches `v` contributes at
/// least its area times `v` to the whole sum.
proof fn lemma_block_sum_lower(
    s: Seq<u8>,
    w: int,
    h: int,
    x0: int,
    y0: int,
    bw: int,
    bh: int,
    v: int,
)
    requires
        w >= 1,
        h >= 1,
        s.len() == w * h,
        0 <= x0,
        0 <= y0,
        bw >= 0,
        bh >= 0,
        x0 + bw <= w,
        y0 + bh <= h,
        0 <= v,
        forall|x: int, y: int|
            x0 <= x < x0 + bw && y0 <= y < y0 + bh ==> v <= #[trigger] s[y * w + x],
    ensures
        sum_seq(s) >= bh * (bw * v),
{
    lemma_block_rows_lower(s, w, h, x0, y0, bw, bh, v, bh);
    let k = (y0 + bh) * w;
    assert(0 <= (y0 + bh) * w <= h * w) by (nonlinear_arith)
        requires 0 <= y0 + bh <= h && w >= 1;
    assert(h * w == w * h) by (nonlinear_arith);
    assert(s =~= s.take(k) + s.subrange(k, s.len() as int));
    lemma_sum_concat(s.take(k), s.subrange(k, s.len() as int));
    crate::buffer::lemma_sum_seq_bounds(s.subrange(k, s.len() as int));
}

/// Inside a rectangular region of the thresholded difference whose
/// every pixel reaches `m`, the horizontal pass reaches `m` at every
/// cell at least two columns from the region's edge.
proof fn lemma_hpass_block_lower(
    dt: Seq<u8>,
    w: int,
    h: int,
    x0: int,
    y0: int,
    bw: int,
    bh: int,
    m: int,
    x: int,
    y: int,
)
    requires
        w >= 1,
        h >= 1,
        dt.len() == w * h,
        0 <= x0,
        0 <= y0,
        x0 + bw <= w,
        y0 + bh <= h,
        0 <= m <= 255,
        forall|u: int, t: int|
            x0 <= u < x0 + bw && y0 <= t < y0 + bh ==> m <= #[trigger] dt[t * w + u],
        x0 + 2 <= x < x0 + bw - 2,
        y0 <= y < y0 + bh,
    ensures
        m <= hpass(dt, w, h)[y * w + x],
        hpass(dt, w, h)[y * w + x] <= 255,
{
    let i = y * w + x;
    lemma_grid_index(w, h, x, y);
    lemma_coords_of_index(w, x, y);
    lemma_grid_index(w, h, x - 2, y);
    lemma_grid_index(w, h, x - 1, y);
    lemma_grid_index(w, h, x + 1, y);
    lemma_grid_index(w, h, x + 2, y);
    assert(m <= dt[y * w + (x - 2)]);
    assert(m <= dt[y * w + (x - 1)]);
    assert(m <= dt[y * w + x]);
    assert(m <= dt[y * w + (x + 1)]);
    assert(m <= dt[y * w + (x + 2)]);
    assert(5 * m <= hwindow_sum(dt, w, x, y) <= 5 * 255);
    lemma_div_is_ordered(5 * m, hwindow_sum(dt, w, x, y), 5);
    assert((5 * m) / 5 == m) by {
        vstd::arithmetic::div_mod::lemma_div_by_multiple(m, 5);
        assert(5 * m == m * 5) by (nonlinear_arith);
    }
}

/// At every cell at least two rows and columns from the region's edge,
/// the full blur reaches `m` as well.
proof fn lemma_blur_block_lower(
    dt: Seq<u8>,
    w: int,
    h: int,
    x0: int,
    y0: int,
    bw: int,
    bh: int,
    m: int,
    x: int,
    y: int,
)
    requires
        w >= 1,
        h >= 1,
        dt.len() == w * h,
        0 <= x0,
        0 <= y0,
        x0 + bw <= w,
        y0 + bh <= h,
        0 <= m <= 255,
        forall|u: int, t: int|
            x0 <= u < x0 + bw && y0 <= t < y0 + bh ==> m <= #[trigger] dt[t * w + u],
        x0 + 2 <= x < x0 + bw - 2,
        y0 + 2 <= y < y0 + bh - 2,
    ensures
        m <= box_blur_spec(dt, w, h)[y * w + x],
{
    let hp = hpass(dt, w, h);
    let i = y * w + x;
    lemma_grid_index(w, h, x, y);
    lemma_coords_of_index(w, x, y);
    lemma_hpass_block_lower(dt, w, h, x0, y0, bw, bh, m, x, y - 2);
    lemma_hpass_block_lower(dt, w, h, x0, y0, bw, bh, m, x, y - 1);
    lemma_hpass_block_lower(dt, w, h, x0, y0, bw, bh, m, x, y);
    lemma_hpass_block_lower(dt, w, h, x0, y0, bw, bh, m, x, y + 1);
    lemma_hpass_block_lower(dt, w, h, x0, y0, bw, bh, m, x, y + 2);
    assert(5 * m <= vwindow_sum(hp, w, h, x, y) <= 5 * 255);
    lemma_div_is_ordered(5 * m, vwindow_sum(hp, w, h, x, y), 5);
    assert((5 * m) / 5 == m) by {
        vstd::arithmetic::div_mod::lemma_div_by_multiple(m, 5);
        assert(5 * m == m * 5) by (nonlinear_arith);
    }
}

/// Noise preservation: a 20-by-20 contiguous block of the thresholded
/// difference whose every pixel reaches magnitude `m` keeps its weight
/// through the blur-weighting step. Its 16-by-16 interior survives the
/// second cutoff in full, so the page score is at least that area's
/// weighted magnitude spread over the page.
pub proof fn law_coherent_block_scores(
    original: Seq<u8>,
    modified: Seq<u8>,
    w: int,
    h: int,
    x0: int,
    y0: int,
    m: int,
)
    requires
        w >= 1,
        h >= 1,
        original.len() == w * h,
        modified.len() == w * h,
        0 <= x0,
        0 <= y0,
        x0 + 20 <= w,
        y0 + 20 <= h,
        91 <= m <= 255,
        forall|u: int, t: int|
            x0 <= u < x0 + 20 && y0 <= t < y0 + 20 ==> m <= #[trigger] thresholded_diff(
                original,
                modified,
            )[t * w + u],
    ensures
        page_score_ppb(original, modified, w, h) >= (256 * ((m * m) / 255)) * 1_000_000_000 / (
        255 * (w * h)),
{
    let dt = thresholded_diff(original, modified);
    let blur = box_blur_spec(dt, w, h);
    let wd = weighted_diff(original, modified, w, h);
    let cell = (m * m) / 255;
    assert(m * m >= 91 * 91 && m * m <= 255 * 255) by (nonlinear_arith)
        requires 91 <= m <= 255;
    lemma_div_is_ordered((91 * 91) as int, m * m, 255);
    lemma_div_is_ordered(m * m, (255 * 255) as int, 255);
    assert forall|u: int, t: int|
        x0 + 2 <= u < x0 + 18 && y0 + 2 <= t < y0 + 18 implies cell <= #[trigger] wd[t * w
        + u] by {
        lemma_blur_block_lower(dt, w, h, x0, y0, 20, 20, m, u, t);
        lemma_grid_index(w, h, u, t);
        let p = t * w + u;
        assert(m <= dt[p]);
        assert((dt[p] as int) * (blur[p] as int) >= m * m) by (nonlinear_arith)
            requires m <= dt[p] && m <= blur[p] && m >= 0;
        assert((dt[p] as int) * (blur[p] as int) <= 255 * 255) by (nonlinear_arith)
            requires dt[p] <= 255 && blur[p] <= 255;
        lemma_div_is_ordered(m * m, (dt[p] as int) * (blur[p] as int), 255);
        lemma_coords_of_index(w, u, t);
    }
    lemma_block_sum_lower(wd, w, h, x0 + 2, y0 + 2, 16, 16, cell);
    assert(16 * (16 * cell) == 256 * cell) by (nonlinear_arith);
    crate::buffer::lemma_sum_seq_bounds(wd);
    assert(wd.len() == w * h);
    assert(w * h >= 1) by (nonlinear_arith)
        requires w >= 1 && h >= 1;
    assert((256 * cell) * 1_000_000_000 <= sum_seq(wd) * 1_000_000_000) by (nonlinear_arith)
        requires 256 * cell <= sum_seq(wd);
    lemma_div_is_ordered(
        (256 * cell) * 1_000_000_000,
        sum_seq(wd) * 1_000_000_000,
        255 * (w * h),
    );
}

/// The block law against the orchestrator's fixed threshold: on a page
/// of at most 1.5 million rendered pixels, a 20-by-20 block whose
/// thresholded difference reaches magnitude 200 throughout always
/// qualifies.
pub proof fn law_coherent_block_reaches_threshold(
    original: Seq<u8>,
    modified: Seq<u8>,
    w: int,
    h: int,
    x0: int,
    y0: int,
    m: int,
)
    requires
        w >= 1,
        h >= 1,
        original.len() == w * h,
        modified.len() == w * h,
        w * h <= 1_500_000,
        0 <= x0,
        0 <= y0,
        x0 + 20 <= w,
        y0 + 20 <= h,
        200 <= m <= 255,
        forall|u: int, t: int|
            x0 <= u < x0 + 20 && y0 <= t < y0 + 20 ==> m <= #[trigger] thresholded_diff(
                original,
                modified,
            )[t * w + u],
    ensures
        page_score_ppb(original, modified, w, h) >= 100_000,
{
    law_coherent_block_scores(original, modified, w, h, x0, y0, m);
    let cell = (m * m) / 255;
    assert(m * m >= 200 * 200) by (nonlinear_arith)
        requires m >= 200;
    lemma_div_is_ordered((200 * 200) as int, m * m, 255);
    let d = 255 * (w * h);
    assert(w * h >= 1) by (nonlinear_arith)
        requires w >= 1 && h >= 1;
    assert(255 * (w * h) >= 255) by (nonlinear_arith)
        requires w * h >= 1;
    assert(255 * (w * h) <= 255 * 1_500_000) by (nonlinear_arith)
        requires w * h <= 1_500_000;
    assert((256 * cell) * 1_000_000_000 >= 100_000 * (255 * (w * h))) by (nonlinear_arith)
        requires cell >= 156 && 255 * (w * h) <= 255 * 1_500_000;
    lemma_div_is_ordered(100_000 * d, (256 * cell) * 1_000_000_000, d);
    assert((100_000 * d) / d == 100_000) by {
        vstd::arithmetic::div_mod::lemma_div_by_multiple(100_000, d);
        assert(100_000 * d == d * 100_000) by (nonlinear_arith);
    }
}

} // verus!
