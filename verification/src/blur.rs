//! The radius-2 box blur that turns a thresholded difference into a
//! local-density map, delegated to `imageproc` behind a trusted contract.

use vstd::prelude::*;
use crate::buffer::GrayBuffer;

verus! {

/// Largest width or height the blur accepts: the filter accumulates
/// row and column running sums in 32-bit integers, so an extent beyond
/// this could overflow them.
pub const MAX_BLUR_EXTENT: usize = 0xFF_FFFF;

/// An index clamped into `[0, n - 1]`: out-of-range window positions read
/// the boundary pixel, as if the image's border were repeated.
pub open spec fn clamp_idx(i: int, n: int) -> int {
    if i < 0 {
        0
    } else if i > n - 1 {
        n - 1
    } else {
        i
    }
}

/// The pixel at column `x` of row `y` of a row-major grid of width `w`.
pub open spec fn at(s: Seq<u8>, w: int, x: int, y: int) -> int {
    s[y * w + x] as int
}

/// Sum of the five horizontally adjacent pixels centred on `(x, y)`,
/// with columns clamped to the grid.
pub open spec fn hwindow_sum(s: Seq<u8>, w: int, x: int, y: int) -> int {
    at(s, w, clamp_idx(x - 2, w), y) + at(s, w, clamp_idx(x - 1, w), y) + at(
        s,
        w,
        clamp_idx(x, w),
        y,
    ) + at(s, w, clamp_idx(x + 1, w), y) + at(s, w, clamp_idx(x + 2, w), y)
}

/// Sum of the five vertically adjacent pixels centred on `(x, y)`,
/// with rows clamped to the grid.
pub open spec fn vwindow_sum(s: Seq<u8>, w: int, h: int, x: int, y: int) -> int {
    at(s, w, x, clamp_idx(y - 2, h)) + at(s, w, x, clamp_idx(y - 1, h)) + at(
        s,
        w,
        x,
        clamp_idx(y, h),
    ) + at(s, w, x, clamp_idx(y + 1, h)) + at(s, w, x, clamp_idx(y + 2, h))
}

/// The horizontal pass: each pixel becomes the mean of its five-wide
/// clamped row window, rounded down.
pub open spec fn hpass(s: Seq<u8>, w: int, h: int) -> Seq<u8> {
    Seq::new((w * h) as nat, |i: int| (hwindow_sum(s, w, i % w, i / w) / 5) as u8)
}

/// The vertical pass: each pixel becomes the mean of its five-tall
/// clamped column window, rounded down.
pub open spec fn vpass(s: Seq<u8>, w: int, h: int) -> Seq<u8> {
    Seq::new((w * h) as nat, |i: int| (vwindow_sum(s, w, h, i % w, i / w) / 5) as u8)
}

/// The radius-2 box blur: a horizontal mean pass followed by a vertical
/// mean pass, each rounding down, with the boundary pixels treated as
/// repeated indefinitely past the edge.
pub open spec fn box_blur_spec(s: Seq<u8>, w: int, h: int) -> Seq<u8> {
    vpass(hpass(s, w, h), w, h)
}

/// Relies on imageproc::filter::box_filter with radius 2 in each axis:
/// a separable filter that takes the running-sum mean of the five-wide
/// row window and then of the five-tall column window, dividing (and so
/// rounding down) after each pass, and pads past the border by repeating
/// the boundary pixel. The extent cap keeps its 32-bit running sums from
/// overflowing.
#[verifier::external_body]
pub(crate) fn box_blur(buf: &GrayBuffer) -> (r: GrayBuffer)
    requires
        buf.wf(),
        1 <= buf.width <= MAX_BLUR_EXTENT,
        1 <= buf.height <= MAX_BLUR_EXTENT,
    ensures
        r.wf(),
        r.width == buf.width,
        r.height == buf.height,
        r.data@ == box_blur_spec(buf.data@, buf.width as int, buf.height as int),
{
    let img = image::GrayImage::from_raw(
        buf.width as u32,
        buf.height as u32,
        buf.data.clone(),
    ).expect("payload length matches dimensions");
    let blurred = imageproc::filter::box_filter(&img, 2, 2);
    GrayBuffer { width: buf.width, height: buf.height, data: blurred.into_raw() }
}

} // verus!
