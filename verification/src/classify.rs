//! Pure predicates that decide whether a path object qualifies as a
//! redaction rectangle and whether an image qualifies as near-uniform.

use vstd::prelude::*;

verus! {

/// Minimum bounding-box edge, in thousandths of a point, for a path to be
/// a plausible redaction block rather than a decorative stroke.
pub const MIN_RECT_EDGE_MILLIPOINTS: u64 = 4000;

/// A closed quadrilateral outline: 4 segments, or 5 with an explicit
/// closing segment, with both bounding-box edges at least 4 points.
pub open spec fn spec_is_rectangle(
    segment_count: usize,
    width_millipoints: u64,
    height_millipoints: u64,
) -> bool {
    &&& (segment_count == 4 || segment_count == 5)
    &&& width_millipoints >= MIN_RECT_EDGE_MILLIPOINTS
    &&& height_millipoints >= MIN_RECT_EDGE_MILLIPOINTS
}

/// Decides whether a path object is a redaction rectangle, from its
/// segment count and its bounding-box extent in thousandths of a point.
///
/// The minimum-size guard excludes small decorative strokes (underlines,
/// borders) that happen to have 4 or 5 segments. No angle or parallelism
/// check is performed: a deliberate trade-off toward recall, accepting
/// that a legitimate box may be stripped.
pub fn is_rectangle(
    segment_count: usize,
    width_millipoints: u64,
    height_millipoints: u64,
) -> (r: bool)
    ensures
        r == spec_is_rectangle(segment_count, width_millipoints, height_millipoints),
{
    if !(segment_count == 4 || segment_count == 5) {
        return false;
    }
    if width_millipoints < MIN_RECT_EDGE_MILLIPOINTS
        || height_millipoints < MIN_RECT_EDGE_MILLIPOINTS {
        return false;
    }
    true
}

/// How many pixels of the sequence hold exactly the given intensity.
pub open spec fn count_eq(s: Seq<u8>, v: u8) -> int
    decreases s.len(),
{
    if s.len() == 0 {
        0
    } else {
        count_eq(s.drop_last(), v) + if s.last() == v {
            1int
        } else {
            0int
        }
    }
}

/// A bucket's count never exceeds the pixel total.
proof fn lemma_count_eq_bounds(s: Seq<u8>, v: u8)
    ensures
        0 <= count_eq(s, v) <= s.len(),
    decreases s.len(),
{
    if s.len() > 0 {
        lemma_count_eq_bounds(s.drop_last(), v);
    }
}

/// The largest bucket count among intensities below `k`.
pub open spec fn max_count_below(s: Seq<u8>, k: int) -> int
    decreases k,
{
    if k <= 0 {
        0
    } else if count_eq(s, (k - 1) as u8) > max_count_below(s, k - 1) {
        count_eq(s, (k - 1) as u8)
    } else {
        max_count_below(s, k - 1)
    }
}

/// The count of the single most frequent intensity bucket.
pub open spec fn dominant_count(s: Seq<u8>) -> int {
    max_count_below(s, 256)
}

/// Near-uniformity: the single most frequent grayscale bucket accounts for
/// at least 99% of the pixels. An empty image is not near-uniform.
pub open spec fn spec_near_uniform(s: Seq<u8>) -> bool {
    s.len() > 0 && 100 * dominant_count(s) >= 99 * s.len()
}

/// Computes the 256-bucket intensity histogram of a grayscale payload.
pub fn histogram(pixels: &Vec<u8>) -> (r: Vec<usize>)
    ensures
        r@.len() == 256,
        forall|v: u8| r@[v as int] == count_eq(pixels@, v),
{
    let mut hist: Vec<usize> = Vec::new();
    let mut b: usize = 0;
    while b < 256
        invariant
            0 <= b <= 256,
            hist@.len() == b,
            forall|j: int| 0 <= j < b ==> hist@[j] == 0,
        decreases 256 - b,
    {
        hist.push(0);
        b = b + 1;
    }
    proof {
        assert forall|v: u8| hist@[v as int] == count_eq(pixels@.take(0), v) by {
            assert(count_eq(pixels@.take(0), v) == 0);
        }
    }
    let n = pixels.len();
    let mut i: usize = 0;
    while i < n
        invariant
            0 <= i <= n,
            n == pixels@.len(),
            hist@.len() == 256,
            forall|v: u8| hist@[v as int] == count_eq(pixels@.take(i as int), v),
        decreases n - i,
    {
        let v = pixels[i];
        proof {
            lemma_count_eq_bounds(pixels@.take(i as int), v);
            assert forall|u: u8|
                count_eq(pixels@.take(i + 1 as int), u) == count_eq(pixels@.take(i as int), u)
                    + if u == pixels@[i as int] {
                    1int
                } else {
                    0int
                } by {
                assert(pixels@.take(i + 1 as int).drop_last() =~= pixels@.take(i as int));
            }
        }
        let count = hist[v as usize];
        hist.set(v as usize, count + 1);
        i = i + 1;
    }
    proof {
        assert(pixels@.take(n as int) =~= pixels@);
    }
    hist
}

/// The largest bucket count of a full 256-bucket histogram.
fn dominant_of_histogram(hist: &Vec<usize>, pixels: Ghost<Seq<u8>>) -> (r: usize)
    requires
        hist@.len() == 256,
        forall|v: u8| hist@[v as int] == count_eq(pixels@, v),
    ensures
        r == dominant_count(pixels@),
{
    let mut best: usize = 0;
    let mut b: usize = 0;
    while b < 256
        invariant
            0 <= b <= 256,
            hist@.len() == 256,
            forall|v: u8| hist@[v as int] == count_eq(pixels@, v),
            best == max_count_below(pixels@, b as int),
        decreases 256 - b,
    {
        let count = hist[b];
        proof {
            assert(hist@[b as int] == count_eq(pixels@, b as u8));
        }
        if count > best {
            best = count;
        }
        b = b + 1;
    }
    best
}

/// Decides whether a rendered grayscale image is near-uniform: its
/// dominant intensity bucket covers at least 99% of the pixels. Solid
/// redaction blocks rendered as raster images pass; the threshold
/// tolerates minor compression and antialiasing noise while rejecting
/// genuine photographic content.
pub fn is_near_uniform(pixels: &Vec<u8>) -> (r: bool)
    ensures
        r == spec_near_uniform(pixels@),
{
    if pixels.len() == 0 {
        return false;
    }
    let hist = histogram(pixels);
    let dominant = dominant_of_histogram(&hist, Ghost(pixels@));
    proof {
        lemma_max_count_below_bounds(pixels@, 256);
    }
    100u128 * (dominant as u128) >= 99u128 * (pixels.len() as u128)
}

/// The dominant bucket count never exceeds the pixel total.
proof fn lemma_max_count_below_bounds(s: Seq<u8>, k: int)
    ensures
        0 <= max_count_below(s, k) <= s.len(),
    decreases k,
{
    if k > 0 {
        lemma_max_count_below_bounds(s, k - 1);
        lemma_count_eq_bounds(s, (k - 1) as u8);
    }
}

} // verus!
