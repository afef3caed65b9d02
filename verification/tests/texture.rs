use window_harness::texture::{flip_rows, frame_pixels, FRAME_BYTES, FRAME_FILL, FRAME_HEIGHT, FRAME_WIDTH};

#[test]
fn the_frame_is_one_colour() {
    let pixels = frame_pixels();
    assert_eq!(pixels.len(), 1_920_000);
    assert!(pixels.iter().all(|&byte| byte == 0xaa));
}

#[test]
fn the_frame_has_four_bytes_to_the_pixel() {
    assert_eq!(FRAME_WIDTH, 800);
    assert_eq!(FRAME_HEIGHT, 600);
    assert_eq!(FRAME_FILL, 0xaa);
    assert_eq!(FRAME_BYTES, 800 * 600 * 4);
}

#[test]
fn flip_rows_turns_the_image_upside_down() {
    let pixels: Vec<u8> = (0..24).collect();
    let flipped = flip_rows(&pixels, 2, 3).unwrap();
    let expected: Vec<u8> = vec![
        16, 17, 18, 19, 20, 21, 22, 23, 8, 9, 10, 11, 12, 13, 14, 15, 0, 1, 2, 3, 4, 5, 6, 7,
    ];
    assert_eq!(flipped, expected);
}

#[test]
fn flipping_twice_gives_the_image_back() {
    let pixels: Vec<u8> = (0..120).collect();
    let once = flip_rows(&pixels, 3, 10).unwrap();
    assert_ne!(once, pixels);
    assert_eq!(flip_rows(&once, 3, 10).unwrap(), pixels);
}

#[test]
fn one_row_stays_as_it_is() {
    let pixels: Vec<u8> = vec![1, 2, 3, 4, 5, 6, 7, 8];
    assert_eq!(flip_rows(&pixels, 2, 1), Some(pixels.clone()));
}

#[test]
fn an_image_without_rows_is_empty() {
    assert_eq!(flip_rows(&[], 5, 0), Some(vec![]));
}

#[test]
fn what_is_no_image_is_not_flipped() {
    let pixels: Vec<u8> = (0..24).collect();
    assert_eq!(flip_rows(&pixels, 0, 3), None);
    assert_eq!(flip_rows(&pixels, 3, 3), None);
    assert_eq!(flip_rows(&pixels, 2, 2), None);
    assert_eq!(flip_rows(&pixels[..23], 2, 3), None);
    assert_eq!(flip_rows(&[], 0, 0), None);
    assert_eq!(flip_rows(&pixels, u32::MAX, u32::MAX), None);
}
