use grayscale::GrayscaleError;
use grayscale::convert_to_grayscale;
use grayscale::luminance;

#[test]
fn white_pixel_stays_white() {
    let buffer = vec![255u8, 255, 255, 255];
    let out = convert_to_grayscale(&buffer, 1, 1).unwrap();
    assert_eq!(out, vec![255u8, 255, 255, 255]);
}

#[test]
fn black_transparent_pixel_stays_black() {
    let buffer = vec![0u8, 0, 0, 0];
    let out = convert_to_grayscale(&buffer, 1, 1).unwrap();
    assert_eq!(out, vec![0u8, 0, 0, 0]);
}

#[test]
fn red_and_green_pixels() {
    let buffer = vec![255u8, 0, 0, 255, 0, 255, 0, 128];
    let out = convert_to_grayscale(&buffer, 2, 1).unwrap();
    assert_eq!(out, vec![76u8, 76, 76, 255, 149, 149, 149, 128]);
}

#[test]
fn mismatched_length_is_refused() {
    let buffer = vec![255u8, 255, 255, 255, 0];
    assert_eq!(
        convert_to_grayscale(&buffer, 1, 1),
        Err(GrayscaleError::InvalidDimensions)
    );
}

#[test]
fn zero_width_is_refused() {
    let buffer = vec![];
    assert_eq!(
        convert_to_grayscale(&buffer, 0, 3),
        Err(GrayscaleError::InvalidDimensions)
    );
}

#[test]
fn zero_height_is_refused() {
    let buffer = vec![];
    assert_eq!(
        convert_to_grayscale(&buffer, 3, 0),
        Err(GrayscaleError::InvalidDimensions)
    );
}

#[test]
fn huge_dimensions_are_refused() {
    let buffer = vec![0u8; 16];
    assert_eq!(
        convert_to_grayscale(&buffer, u32::MAX, u32::MAX),
        Err(GrayscaleError::InvalidDimensions)
    );
}

#[test]
fn conversion_is_deterministic() {
    let buffer = vec![10u8, 20, 30, 40, 200, 100, 50, 25, 1, 2, 3, 4];
    let first = convert_to_grayscale(&buffer, 3, 1).unwrap();
    let second = convert_to_grayscale(&buffer, 3, 1).unwrap();
    assert_eq!(first, second);
}

#[test]
fn length_is_preserved() {
    let buffer = vec![7u8; 24];
    let out = convert_to_grayscale(&buffer, 2, 3).unwrap();
    assert_eq!(out.len(), buffer.len());
}

#[test]
fn alpha_bytes_are_copied() {
    let buffer = vec![1u8, 2, 3, 9, 4, 5, 6, 200, 7, 8, 9, 0, 10, 11, 12, 77];
    let out = convert_to_grayscale(&buffer, 2, 2).unwrap();
    for pixel in 0..4 {
        assert_eq!(out[4 * pixel + 3], buffer[4 * pixel + 3]);
    }
}

#[test]
fn colour_channels_agree() {
    let buffer = vec![13u8, 77, 201, 31, 250, 3, 98, 255, 0, 128, 64, 17];
    let out = convert_to_grayscale(&buffer, 1, 3).unwrap();
    for pixel in 0..3 {
        assert_eq!(out[4 * pixel], out[4 * pixel + 1]);
        assert_eq!(out[4 * pixel + 1], out[4 * pixel + 2]);
    }
}

#[test]
fn second_conversion_changes_nothing() {
    let buffer = vec![13u8, 77, 201, 31, 250, 3, 98, 255, 0, 128, 64, 17, 9, 9, 9, 9];
    let once = convert_to_grayscale(&buffer, 2, 2).unwrap();
    let twice = convert_to_grayscale(&once, 2, 2).unwrap();
    assert_eq!(twice, once);
}

#[test]
fn luminance_of_pure_channels() {
    assert_eq!(luminance(255, 0, 0), 76);
    assert_eq!(luminance(0, 255, 0), 149);
    assert_eq!(luminance(0, 0, 255), 29);
}

#[test]
fn luminance_of_mixed_channels() {
    // floor((299 * 12 + 587 * 34 + 114 * 56) / 1000) = floor(29.930)
    assert_eq!(luminance(12, 34, 56), 29);
    // floor((299 * 200 + 587 * 100 + 114 * 50) / 1000) = floor(124.200)
    assert_eq!(luminance(200, 100, 50), 124);
}

#[test]
fn grey_input_is_a_fixed_point_of_luminance() {
    for v in 0..=255u8 {
        assert_eq!(luminance(v, v, v), v);
    }
}

#[test]
fn row_major_order_is_kept() {
    // 2 x 2 image whose pixels all differ; each output pixel must be
    // computed from the input pixel at the same row-major position.
    let buffer = vec![
        255u8, 0, 0, 1, // red
        0, 255, 0, 2, // green
        0, 0, 255, 3, // blue
        255, 255, 255, 4, // white
    ];
    let out = convert_to_grayscale(&buffer, 2, 2).unwrap();
    assert_eq!(out, vec![
        76u8, 76, 76, 1, 149, 149, 149, 2, 29, 29, 29, 3, 255, 255, 255, 4,
    ]);
}
