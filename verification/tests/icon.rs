//! Pictures.

use vireo::icon::{icon_pixels, pixels_of};

/// A picture of two opaque pixels, side by side.
const PICTURE: [u8; 72] = [
    0x89, 0x50, 0x4e, 0x47, 0x0d, 0x0a, 0x1a, 0x0a, 0x00, 0x00, 0x00, 0x0d,
    0x49, 0x48, 0x44, 0x52, 0x00, 0x00, 0x00, 0x02, 0x00, 0x00, 0x00, 0x01,
    0x08, 0x02, 0x00, 0x00, 0x00, 0x7b, 0x40, 0xe8, 0xdd, 0x00, 0x00, 0x00,
    0x0f, 0x49, 0x44, 0x41, 0x54, 0x78, 0x9c, 0x63, 0xf8, 0xcf, 0xc0, 0xc0,
    0xc8, 0xc4, 0x0c, 0x00, 0x06, 0x0b, 0x01, 0x06, 0x04, 0x0b, 0x99, 0x2d,
    0x00, 0x00, 0x00, 0x00, 0x49, 0x45, 0x4e, 0x44, 0xae, 0x42, 0x60, 0x82,
];

#[test]
fn picture_gives_its_pixels() {
    let icon = icon_pixels(&PICTURE).unwrap();
    assert_eq!((icon.width, icon.height), (2, 1));
    assert_eq!(icon.rgba, vec![255, 0, 0, 255, 1, 2, 3, 255]);
}

#[test]
fn other_bytes_give_no_pixels() {
    assert!(icon_pixels(&[]).is_none());
    assert!(icon_pixels(b"not a picture").is_none());
    assert!(icon_pixels(&PICTURE[..20]).is_none());
}

#[test]
fn pixels_have_four_bytes_each() {
    let icon = pixels_of(vec![7; 24], 3, 2).unwrap();
    assert_eq!((icon.rgba.len(), icon.width, icon.height), (24, 3, 2));
    assert!(pixels_of(vec![7; 25], 3, 2).is_none());
    assert!(pixels_of(vec![7; 20], 3, 2).is_none());
    assert!(pixels_of(vec![7; 4], u32::MAX, u32::MAX).is_none());
    assert!(pixels_of(vec![], 0, 9).is_some());
}
