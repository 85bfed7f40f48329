use pdf_ruin::buffer::{
    GrayBuffer, has_nonzero, mean_value_ppb, multiply_scaled, subtract, sum_pixels, threshold,
};
use pdf_ruin::ruin::MIN_AVERAGE_SCORE_PPB;
use pdf_ruin::scorer::{PageDiffScore, aggregate_scores, score_page};

fn buf(width: usize, height: usize, data: Vec<u8>) -> GrayBuffer {
    assert_eq!(data.len(), width * height);
    GrayBuffer::from_vec(width, height, data)
}

#[test]
fn subtract_clamps_at_zero() {
    let after = buf(2, 2, vec![100, 50, 0, 255]);
    let before = buf(2, 2, vec![40, 60, 10, 255]);
    let d = subtract(&after, &before);
    assert_eq!(d.data, vec![60, 0, 0, 0]);
}

#[test]
fn threshold_zeroes_below_cutoff() {
    let b = buf(4, 1, vec![63, 64, 200, 0]);
    let t = threshold(&b, 64);
    assert_eq!(t.data, vec![0, 64, 200, 0]);
}

#[test]
fn multiply_normalizes_by_full_intensity() {
    let a = buf(3, 1, vec![255, 128, 100]);
    let b = buf(3, 1, vec![255, 255, 100]);
    let m = multiply_scaled(&a, &b);
    assert_eq!(m.data, vec![255, 128, 39]);
}

#[test]
fn has_nonzero_finds_single_pixel() {
    let mut data = vec![0u8; 25];
    data[13] = 1;
    assert!(has_nonzero(&buf(5, 5, data)));
    assert!(!has_nonzero(&buf(5, 5, vec![0u8; 25])));
}

#[test]
fn sum_and_mean_are_exact() {
    let b = buf(2, 2, vec![255, 0, 0, 0]);
    assert_eq!(sum_pixels(&b), 255);
    // 255 / (255 * 4) of full intensity, in parts per billion.
    assert_eq!(mean_value_ppb(&b), 250_000_000);
}

#[test]
fn identical_pages_have_no_visible_diff() {
    let a = buf(8, 8, vec![77u8; 64]);
    let b = buf(8, 8, vec![77u8; 64]);
    assert_eq!(score_page(&a, &b), None);
}

#[test]
fn darkening_does_not_count() {
    let original = buf(4, 4, vec![200u8; 16]);
    let modified = buf(4, 4, vec![10u8; 16]);
    assert_eq!(score_page(&original, &modified), None);
}

#[test]
fn uniform_brightening_scores_exactly() {
    // 5x5, every pixel brightens by 100: the thresholded diff is 100
    // everywhere, its blur is 100 everywhere (clamped borders repeat the
    // same value), the weighted diff is 100 * 100 / 255 = 39, which
    // passes the second cutoff, so the score is
    // (25 * 39) * 1e9 / (255 * 25) = 152_941_176 ppb, rounded down.
    let original = buf(5, 5, vec![0u8; 25]);
    let modified = buf(5, 5, vec![100u8; 25]);
    assert_eq!(score_page(&original, &modified), Some(152_941_176));
}

#[test]
fn isolated_pixel_is_rejected() {
    // A single interior pixel above the first cutoff is starved of local
    // density by the blur weighting: the score is exactly zero.
    let original = buf(3, 3, vec![0u8; 9]);
    let mut data = vec![0u8; 9];
    data[4] = 255;
    let modified = buf(3, 3, data);
    assert_eq!(score_page(&original, &modified), Some(0));
}

#[test]
fn isolated_pixel_in_large_page_stays_below_threshold() {
    let original = buf(40, 40, vec![0u8; 1600]);
    let mut data = vec![0u8; 1600];
    data[20 * 40 + 20] = 200;
    let modified = buf(40, 40, data);
    let score = score_page(&original, &modified).unwrap();
    assert!(score < MIN_AVERAGE_SCORE_PPB);
}

#[test]
fn contiguous_block_reaches_threshold() {
    // A 20x20 block of the same magnitude as the isolated pixel keeps
    // its weight and qualifies.
    let original = buf(40, 40, vec![0u8; 1600]);
    let mut data = vec![0u8; 1600];
    for y in 10..30 {
        for x in 10..30 {
            data[y * 40 + x] = 200;
        }
    }
    let modified = buf(40, 40, data);
    let score = score_page(&original, &modified).unwrap();
    assert!(score >= MIN_AVERAGE_SCORE_PPB);
}

#[test]
fn stronger_difference_never_scores_lower() {
    let original = buf(30, 30, vec![0u8; 900]);
    let mut weak = vec![0u8; 900];
    let mut strong = vec![0u8; 900];
    for y in 5..15 {
        for x in 5..15 {
            weak[y * 30 + x] = 120;
            strong[y * 30 + x] = 240;
        }
    }
    let weak_score = score_page(&original, &buf(30, 30, weak)).unwrap();
    let strong_score = score_page(&original, &buf(30, 30, strong)).unwrap();
    assert!(weak_score <= strong_score);
    assert!(weak_score > 0);
}

#[test]
fn aggregate_of_no_pages_is_zero_and_empty() {
    let (max, joined) = aggregate_scores(&Vec::new());
    assert_eq!(max, 0);
    assert_eq!(joined, "");
}

#[test]
fn aggregate_takes_maximum_and_joins_pages() {
    let scores = vec![
        PageDiffScore { page_number: 1, score_ppb: 400 },
        PageDiffScore { page_number: 3, score_ppb: 900_000 },
        PageDiffScore { page_number: 12, score_ppb: 5 },
    ];
    let (max, joined) = aggregate_scores(&scores);
    assert_eq!(max, 900_000);
    assert_eq!(joined, "1,3,12");
}
