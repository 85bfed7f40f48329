use pdf_ruin::classify::{histogram, is_near_uniform, is_rectangle};

#[test]
fn rectangle_with_four_segments_and_large_box() {
    assert!(is_rectangle(4, 4000, 4000));
    assert!(is_rectangle(4, 500_000, 4000));
    assert!(is_rectangle(5, 4001, 900_000));
}

#[test]
fn rectangle_requires_four_or_five_segments() {
    assert!(!is_rectangle(3, 500_000, 500_000));
    assert!(!is_rectangle(6, 500_000, 500_000));
    assert!(!is_rectangle(0, 500_000, 500_000));
    assert!(!is_rectangle(100, 500_000, 500_000));
}

#[test]
fn rectangle_requires_minimum_extent() {
    assert!(!is_rectangle(4, 3999, 500_000));
    assert!(!is_rectangle(4, 500_000, 3999));
    assert!(!is_rectangle(5, 0, 0));
}

#[test]
fn histogram_counts_each_intensity() {
    let pixels = vec![0u8, 0, 7, 255, 7, 7];
    let hist = histogram(&pixels);
    assert_eq!(hist.len(), 256);
    assert_eq!(hist[0], 2);
    assert_eq!(hist[7], 3);
    assert_eq!(hist[255], 1);
    assert_eq!(hist[1], 0);
}

#[test]
fn fully_uniform_image_is_near_uniform() {
    let pixels = vec![128u8; 400];
    assert!(is_near_uniform(&pixels));
}

#[test]
fn half_black_half_white_is_not_near_uniform() {
    let mut pixels = vec![0u8; 200];
    pixels.extend(vec![255u8; 200]);
    assert!(!is_near_uniform(&pixels));
}

#[test]
fn ninety_nine_percent_dominant_is_near_uniform() {
    let mut pixels = vec![10u8; 99];
    pixels.push(200);
    assert!(is_near_uniform(&pixels));
}

#[test]
fn below_ninety_nine_percent_dominant_is_not_near_uniform() {
    let mut pixels = vec![10u8; 98];
    pixels.push(200);
    pixels.push(201);
    assert!(!is_near_uniform(&pixels));
}

#[test]
fn empty_image_is_not_near_uniform() {
    assert!(!is_near_uniform(&Vec::new()));
}
