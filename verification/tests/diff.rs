use kiroku::diff::{compute_dhash, hamming_distance, has_significant_change, RgbaFrame};
use std::time::{Duration, Instant};

fn gradient_image(reverse: bool) -> RgbaFrame {
    let mut pixels = Vec::with_capacity(128 * 128 * 4);
    for _y in 0..128u32 {
        for x in 0..128u32 {
            let value = if reverse {
                255_u8.saturating_sub((x * 2) as u8)
            } else {
                (x * 2) as u8
            };
            pixels.extend_from_slice(&[value, value, value, 255]);
        }
    }
    RgbaFrame::new(128, 128, pixels).expect("gradient frame should have four bytes per pixel")
}

#[test]
fn identical_images_have_zero_hamming_distance() {
    let image = gradient_image(false);
    let hash1 = compute_dhash(&image);
    let hash2 = compute_dhash(&image);

    assert_eq!(hamming_distance(hash1, hash2), 0);
}

#[test]
fn inverse_gradients_produce_large_distance() {
    let hash1 = compute_dhash(&gradient_image(false));
    let hash2 = compute_dhash(&gradient_image(true));

    assert!(
        hamming_distance(hash1, hash2) >= 32,
        "expected inverse gradients to differ significantly"
    );
}

#[test]
fn threshold_10_detects_meaningful_change() {
    let hash1 = compute_dhash(&gradient_image(false));
    let hash2 = compute_dhash(&gradient_image(true));

    assert!(has_significant_change(hash1, hash2, 10));
    assert!(!has_significant_change(hash1, hash1, 10));
}

#[test]
fn dhash_computation_stays_within_target_for_small_image() {
    let image = gradient_image(false);
    let _ = compute_dhash(&image);
    let start = Instant::now();
    let iterations = 10;

    for _ in 0..iterations {
        let _ = compute_dhash(&image);
    }

    let average_elapsed = start.elapsed() / iterations;

    assert!(
        average_elapsed < Duration::from_millis(50),
        "average dhash should finish within 50ms for a small test image"
    );
}

#[test]
fn hamming_distance_counts_differing_bits() {
    assert_eq!(hamming_distance(0, u64::MAX), 64);
    assert_eq!(hamming_distance(0b1011, 0b0001), 2);
    assert_eq!(hamming_distance(0x1234, 0x1234), 0);
    assert_eq!(hamming_distance(5, 9), hamming_distance(9, 5));
}

#[test]
fn significant_change_is_inclusive_at_threshold() {
    assert!(has_significant_change(0, 0b111, 3));
    assert!(!has_significant_change(0, 0b111, 4));
    assert!(has_significant_change(7, 7, 0));
}

#[test]
fn frame_requires_four_bytes_per_pixel() {
    assert!(RgbaFrame::new(2, 2, vec![0; 16]).is_some());
    assert!(RgbaFrame::new(2, 2, vec![0; 15]).is_none());
    let frame = RgbaFrame::new(3, 1, vec![0; 12]).expect("frame should build");
    assert_eq!((frame.width(), frame.height()), (3, 1));
}

#[test]
fn flat_image_hashes_to_zero() {
    let frame = RgbaFrame::new(16, 16, vec![128; 16 * 16 * 4]).expect("frame should build");
    assert_eq!(compute_dhash(&frame), 0);
}

#[test]
fn filled_frame_repeats_the_colour() {
    let (width, height, pixels) = RgbaFrame::filled(2, 3, [1, 2, 3, 4]).into_parts();
    assert_eq!((width, height), (2, 3));
    assert_eq!(pixels.len(), 24);
    assert!(pixels.chunks(4).all(|pixel| pixel == [1, 2, 3, 4]));
}

#[test]
fn paste_replaces_only_the_covered_pixels() {
    let canvas = RgbaFrame::filled(3, 2, [0, 0, 0, 255]);
    let dot = RgbaFrame::new(1, 1, vec![9, 8, 7, 6]).expect("dot should build");
    let (_, _, pixels) = canvas.paste(&dot, 2, 1).expect("dot fits").into_parts();
    let mut expected = Vec::new();
    for _ in 0..5 {
        expected.extend_from_slice(&[0, 0, 0, 255]);
    }
    expected.extend_from_slice(&[9, 8, 7, 6]);
    assert_eq!(pixels, expected);
}

#[test]
fn paste_copies_a_picture_row_by_row() {
    let canvas = RgbaFrame::filled(4, 3, [0, 0, 0, 0]);
    let picture = RgbaFrame::new(2, 2, (1..=16).collect()).expect("picture should build");
    let (_, _, pixels) = canvas.paste(&picture, 1, 1).expect("picture fits").into_parts();
    let row = |y: usize| pixels[y * 16..(y + 1) * 16].to_vec();
    assert_eq!(row(0), vec![0; 16]);
    assert_eq!(row(1), vec![0, 0, 0, 0, 1, 2, 3, 4, 5, 6, 7, 8, 0, 0, 0, 0]);
    assert_eq!(row(2), vec![0, 0, 0, 0, 9, 10, 11, 12, 13, 14, 15, 16, 0, 0, 0, 0]);
}

#[test]
fn paste_refuses_a_picture_that_sticks_out() {
    let canvas = RgbaFrame::filled(3, 2, [0, 0, 0, 255]);
    let picture = RgbaFrame::filled(2, 2, [1, 1, 1, 1]);
    assert!(canvas.paste(&picture, 2, 0).is_none());
    assert!(canvas.paste(&picture, 0, 1).is_none());
    assert!(canvas.paste(&picture, 1, 0).is_some());
}

#[test]
fn hamming_distance_obeys_the_triangle_inequality() {
    assert_eq!(hamming_distance(0, u64::MAX), 64);
    let (a, b, c) = (0b1011u64, 0b0110u64, 0b1111_0000u64);
    assert!(hamming_distance(a, c) <= hamming_distance(a, b) + hamming_distance(b, c));
    assert_eq!(hamming_distance(a, b), 3);
}
