//! Colours, their parts and their hexadecimal form.

use vireo::color;
use vireo::color::Color;
use vireo::colors;

fn f(bits: u32) -> f32 {
    f32::from_bits(bits)
}

#[test]
fn color_new() {
    let c = Color::new(0.5f32.to_bits(), 0.25f32.to_bits(), 0.75f32.to_bits(), 1.0f32.to_bits());
    assert_eq!(f(c.r), 0.5);
    assert_eq!(f(c.g), 0.25);
    assert_eq!(f(c.b), 0.75);
    assert_eq!(f(c.a), 1.0);
}

#[test]
fn color_default() {
    let c = Color::default();
    assert_eq!(f(c.r), 0.0);
    assert_eq!(f(c.g), 0.0);
    assert_eq!(f(c.b), 0.0);
    assert_eq!(f(c.a), 0.0);
}

#[test]
fn color_from_u8_array() {
    let c = Color::from_u8(255, 128, 64, 0);
    assert!((f(c.r) - 1.0).abs() < 0.01);
    assert!((f(c.g) - 0.502).abs() < 0.01);
    assert!((f(c.b) - 0.251).abs() < 0.01);
    assert!((f(c.a) - 0.0).abs() < 0.01);
}

#[test]
fn color_u8_macro() {
    let c = Color::from_u8(255, 128, 64, 32);
    assert!((f(c.r) - 1.0).abs() < 0.01);
    assert!((f(c.g) - 0.502).abs() < 0.01);
    assert!((f(c.b) - 0.251).abs() < 0.01);
    assert!((f(c.a) - 0.125).abs() < 0.01);
}

#[test]
fn color_u8_macro_zero() {
    let c = Color::from_u8(0, 0, 0, 0);
    assert_eq!(c, Color::new(0.0f32.to_bits(), 0.0f32.to_bits(), 0.0f32.to_bits(), 0.0f32.to_bits()));
}

#[test]
fn preset_colors_not_blank() {
    assert_ne!(colors::BLACK, colors::BLANK);
    assert_eq!(f(colors::BLACK[3]), 1.0);
    assert_eq!(f(colors::BLANK[3]), 0.0);
}

#[test]
fn presets_have_their_parts() {
    assert_eq!(colors::GOLD.map(f), [1.00, 0.80, 0.00, 1.00]);
    assert_eq!(colors::VIOLET.map(f), [0.53, 0.24, 0.75, 1.00]);
    assert_eq!(colors::MAGENTA.map(f), [1.00, 0.00, 1.00, 1.00]);
}

#[test]
fn every_byte_is_the_nearest_float() {
    for n in 0..=255u8 {
        assert_eq!(color::unit_bits(n), (n as f32 / 255.0).to_bits());
    }
}

#[test]
fn opacity_is_replaced() {
    let c = Color::from_u8(10, 20, 30, 40);
    assert_eq!(f(c.transparent().a), 0.0);
    assert_eq!(f(c.opaque().a), 1.0);
    assert_eq!(f(c.with_alpha(0.5f32.to_bits()).a), 0.5);
    assert_eq!(c.opaque().r, c.r);
    assert_eq!(c.bits(), [c.r, c.g, c.b, c.a]);
}

#[test]
fn hex_forms() {
    assert_eq!(color::parse_hex("#F80"), Some((255, 136, 0, 255)));
    assert_eq!(color::parse_hex("f80c"), Some((255, 136, 0, 204)));
    assert_eq!(color::parse_hex("#1a2B3c"), Some((26, 43, 60, 255)));
    assert_eq!(color::parse_hex("##1A2B3C4D"), Some((26, 43, 60, 77)));
}

#[test]
fn hex_refuses_other_forms() {
    assert_eq!(color::parse_hex(""), None);
    assert_eq!(color::parse_hex("#12"), None);
    assert_eq!(color::parse_hex("#12345"), None);
    assert_eq!(color::parse_hex("#12345g"), None);
    assert_eq!(color::parse_hex("#+++"), None);
    assert_eq!(color::parse_hex("#+f+1+0"), None);
    assert_eq!(color::parse_hex("#-f1020"), None);
    assert_eq!(color::parse_hex("#1234567"), None);
    assert!(Color::from_hex("#xyz").is_none());
}

#[test]
fn hex_gives_the_color() {
    assert_eq!(Color::from_hex("#FF8040"), Some(Color::from_u8(255, 128, 64, 255)));
}

#[test]
fn hex_is_written_and_reads_back() {
    assert_eq!(color::bytes_to_hex(0, 10, 171, 255), "#000AABFF");
    assert_eq!(color::parse_hex(&color::bytes_to_hex(1, 2, 254, 99)), Some((1, 2, 254, 99)));
}

#[test]
fn hex_forms_give_the_same_color() {
    let c = Color::from_hex("#f80").unwrap();
    for form in ["F80", "#F80f", "#ff8800", "FF8800", "#Ff8800fF"] {
        assert_eq!(Color::from_hex(form), Some(c));
    }
    assert_eq!(Color::from_hex("#f80c"), Color::from_hex("#ff8800cc"));
}

#[test]
fn every_byte_reads_back() {
    for n in 0..=255u8 {
        let c = Color::from_u8(n, 255 - n, n / 2, 7);
        assert_eq!(c.to_u8(), [n, 255 - n, n / 2, 7]);
        assert_eq!(c.to_hex(), format!("#{:02X}{:02X}{:02X}07", n, 255 - n, n / 2));
        assert_eq!(Color::from_hex(&c.to_hex()), Some(c));
    }
}

#[test]
fn parts_are_cut_to_bytes() {
    let mut x: u32 = 0;
    loop {
        assert_eq!(color::byte_of(x), (f(x) * 255.0) as u8);
        match x.checked_add(65521) {
            Some(next) => x = next,
            None => break,
        }
    }
    for n in 1..=255u32 {
        let near = (n as f32 / 255.0).to_bits();
        for x in near - 300..near + 300 {
            assert_eq!(color::byte_of(x), (f(x) * 255.0) as u8);
        }
    }
    for v in [0.0, -0.0, -1.0, 0.5, 1.0, 1.0001, 1e-40, f32::INFINITY, f32::NEG_INFINITY, f32::NAN] {
        assert_eq!(color::byte_of(v.to_bits()), (v * 255.0) as u8);
    }
}
