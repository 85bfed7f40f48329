//! Dense 2-D grids of 8-bit grayscale intensities and the per-pixel
//! operations the difference scorer is built from.

use vstd::prelude::*;

verus! {

/// A dense 2-D grid of 8-bit grayscale intensities with explicit width and
/// height, stored row-major. Produced by rasterizing a page or carried as a
/// rendered image payload.
pub struct GrayBuffer {
    /// Width in pixels.
    pub width: usize,
    /// Height in pixels.
    pub height: usize,
    /// Row-major pixel intensities, one byte per pixel.
    pub data: Vec<u8>,
}

impl GrayBuffer {
    /// Well-formedness: the payload holds exactly one byte per pixel, and
    /// each dimension fits the 32-bit extent that raster images carry.
    pub open spec fn wf(self) -> bool {
        &&& self.data@.len() == self.width * self.height
        &&& self.width <= 0xFFFF_FFFFusize
        &&& self.height <= 0xFFFF_FFFFusize
    }

    /// Whether two buffers share identical dimensions, the precondition of
    /// every pairwise pixel operation.
    pub open spec fn same_dims(self, other: GrayBuffer) -> bool {
        self.width == other.width && self.height == other.height
    }

    /// Wraps a row-major byte payload as a buffer.
    pub fn from_vec(width: usize, height: usize, data: Vec<u8>) -> (r: GrayBuffer)
        requires
            data@.len() == width * height,
            width <= 0xFFFF_FFFFusize,
            height <= 0xFFFF_FFFFusize,
        ensures
            r.wf(),
            r.width == width,
            r.height == height,
            r.data@ == data@,
    {
        GrayBuffer { width, height, data }
    }
}

/// Signed subtraction clamped at zero: only brightening relative to the
/// first operand counts.
pub open spec fn sat_sub(after: u8, before: u8) -> u8 {
    if after >= before {
        (after - before) as u8
    } else {
        0u8
    }
}

/// A pixel kept at its value when at or above the cutoff, zeroed below it.
pub open spec fn cutoff(v: u8, threshold: u8) -> u8 {
    if v >= threshold {
        v
    } else {
        0u8
    }
}

/// Per-pixel product normalized back to the 0–255 range.
pub open spec fn scaled_mul(a: u8, b: u8) -> u8 {
    ((a * b) / 255) as u8
}

/// Pointwise saturating difference of two equally long pixel sequences.
pub open spec fn diff_seq(after: Seq<u8>, before: Seq<u8>) -> Seq<u8> {
    Seq::new(after.len(), |i: int| sat_sub(after[i], before[i]))
}

/// Pointwise cutoff of a pixel sequence.
pub open spec fn cutoff_seq(s: Seq<u8>, threshold: u8) -> Seq<u8> {
    Seq::new(s.len(), |i: int| cutoff(s[i], threshold))
}

/// Pointwise normalized product of two equally long pixel sequences.
pub open spec fn scaled_mul_seq(a: Seq<u8>, b: Seq<u8>) -> Seq<u8> {
    Seq::new(a.len(), |i: int| scaled_mul(a[i], b[i]))
}

/// Sum of a pixel sequence's values.
pub open spec fn sum_seq(s: Seq<u8>) -> int
    decreases s.len(),
{
    if s.len() == 0 {
        0
    } else {
        sum_seq(s.drop_last()) + s.last()
    }
}

/// The sum of a pixel sequence lies between 0 and 255 per pixel.
pub proof fn lemma_sum_seq_bounds(s: Seq<u8>)
    ensures
        0 <= sum_seq(s) <= 255 * s.len(),
    decreases s.len(),
{
    if s.len() > 0 {
        lemma_sum_seq_bounds(s.drop_last());
    }
}

/// The mean pixel value normalized to parts per billion of full intensity:
/// the page-score scale, where 1.0 corresponds to one billion.
pub open spec fn mean_ppb(s: Seq<u8>) -> int
    recommends
        s.len() > 0,
{
    sum_seq(s) * 1_000_000_000 / (255 * s.len() as int)
}

/// Computes the pointwise saturating difference `modified - original`,
/// clamped at zero, so that only brightening counts.
pub fn subtract(modified: &GrayBuffer, original: &GrayBuffer) -> (r: GrayBuffer)
    requires
        modified.wf(),
        original.wf(),
        modified.same_dims(*original),
    ensures
        r.wf(),
        r.same_dims(*modified),
        r.data@ == diff_seq(modified.data@, original.data@),
{
    let n = modified.data.len();
    let mut data: Vec<u8> = Vec::new();
    let mut i: usize = 0;
    while i < n
        invariant
            0 <= i <= n,
            n == modified.data@.len(),
            n == original.data@.len(),
            data@.len() == i,
            forall|j: int|
                0 <= j < i ==> data@[j] == sat_sub(modified.data@[j], original.data@[j]),
        decreases n - i,
    {
        let a = modified.data[i];
        let b = original.data[i];
        if a >= b {
            data.push(a - b);
        } else {
            data.push(0);
        }
        i = i + 1;
    }
    proof {
        assert(data@ =~= diff_seq(modified.data@, original.data@));
    }
    GrayBuffer { width: modified.width, height: modified.height, data }
}

/// Zeroes every pixel below the cutoff level, keeping the rest unchanged.
pub fn threshold(buf: &GrayBuffer, level: u8) -> (r: GrayBuffer)
    requires
        buf.wf(),
    ensures
        r.wf(),
        r.same_dims(*buf),
        r.data@ == cutoff_seq(buf.data@, level),
{
    let n = buf.data.len();
    let mut data: Vec<u8> = Vec::new();
    let mut i: usize = 0;
    while i < n
        invariant
            0 <= i <= n,
            n == buf.data@.len(),
            data@.len() == i,
            forall|j: int| 0 <= j < i ==> data@[j] == cutoff(buf.data@[j], level),
        decreases n - i,
    {
        let v = buf.data[i];
        if v >= level {
            data.push(v);
        } else {
            data.push(0);
        }
        i = i + 1;
    }
    proof {
        assert(data@ =~= cutoff_seq(buf.data@, level));
    }
    GrayBuffer { width: buf.width, height: buf.height, data }
}

/// Multiplies two buffers pointwise, normalized to the 0–255 range; the
/// weighting step that suppresses isolated noise.
pub fn multiply_scaled(a: &GrayBuffer, b: &GrayBuffer) -> (r: GrayBuffer)
    requires
        a.wf(),
        b.wf(),
        a.same_dims(*b),
    ensures
        r.wf(),
        r.same_dims(*a),
        r.data@ == scaled_mul_seq(a.data@, b.data@),
{
    let n = a.data.len();
    let mut data: Vec<u8> = Vec::new();
    let mut i: usize = 0;
    while i < n
        invariant
            0 <= i <= n,
            n == a.data@.len(),
            n == b.data@.len(),
            data@.len() == i,
            forall|j: int| 0 <= j < i ==> data@[j] == scaled_mul(a.data@[j], b.data@[j]),
        decreases n - i,
    {
        let av = a.data[i];
        let bv = b.data[i];
        proof {
            assert((av as int) * (bv as int) <= 255 * 255) by (nonlinear_arith)
                requires av <= 255 && bv <= 255;
        }
        let p: u16 = (av as u16) * (bv as u16);
        data.push((p / 255) as u8);
        i = i + 1;
    }
    proof {
        assert(data@ =~= scaled_mul_seq(a.data@, b.data@));
    }
    GrayBuffer { width: a.width, height: a.height, data }
}

/// Whether any pixel of the buffer is nonzero.
pub fn has_nonzero(buf: &GrayBuffer) -> (r: bool)
    ensures
        r <==> exists|i: int| 0 <= i < buf.data@.len() && buf.data@[i] != 0,
{
    let n = buf.data.len();
    let mut i: usize = 0;
    while i < n
        invariant
            0 <= i <= n,
            n == buf.data@.len(),
            forall|j: int| 0 <= j < i ==> buf.data@[j] == 0,
        decreases n - i,
    {
        if buf.data[i] != 0 {
            return true;
        }
        i = i + 1;
    }
    false
}

/// Sums every pixel value of the buffer.
pub fn sum_pixels(buf: &GrayBuffer) -> (r: u128)
    ensures
        r == sum_seq(buf.data@),
{
    let n = buf.data.len();
    let mut sum: u128 = 0;
    let mut i: usize = 0;
    while i < n
        invariant
            0 <= i <= n,
            n == buf.data@.len(),
            sum == sum_seq(buf.data@.take(i as int)),
            0 <= sum <= 255 * i,
        decreases n - i,
    {
        proof {
            lemma_sum_seq_bounds(buf.data@.take(i as int));
            assert(buf.data@.take(i + 1 as int).drop_last() =~= buf.data@.take(i as int));
        }
        sum = sum + (buf.data[i] as u128);
        i = i + 1;
    }
    proof {
        assert(buf.data@.take(n as int) =~= buf.data@);
    }
    sum
}

/// The mean pixel value of the buffer in parts per billion of full
/// intensity: `sum / (255 * pixels)`, scaled by one billion, rounded down.
pub fn mean_value_ppb(buf: &GrayBuffer) -> (r: u64)
    requires
        buf.data@.len() > 0,
    ensures
        r == mean_ppb(buf.data@),
        r <= 1_000_000_000,
{
    let sum = sum_pixels(buf);
    let n = buf.data.len();
    proof {
        lemma_sum_seq_bounds(buf.data@);
        let s = sum_seq(buf.data@);
        let d = 255 * (n as int);
        assert(s * 1_000_000_000 <= d * 1_000_000_000) by (nonlinear_arith)
            requires s <= d;
        assert(d * 1_000_000_000 <= 0xFF * 0xFFFF_FFFF_FFFF_FFFF * 1_000_000_000)
            by (nonlinear_arith)
            requires d <= 0xFF * 0xFFFF_FFFF_FFFF_FFFF;
        vstd::arithmetic::div_mod::lemma_div_is_ordered(s * 1_000_000_000, d * 1_000_000_000, d);
        vstd::arithmetic::div_mod::lemma_div_by_multiple(1_000_000_000, d);
        assert(d * 1_000_000_000 == 1_000_000_000 * d) by (nonlinear_arith);
    }
    let ppb = (sum * 1_000_000_000) / (255 * (n as u128));
    ppb as u64
}

} // verus!
