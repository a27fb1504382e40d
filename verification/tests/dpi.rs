//! Logical and physical pixels, and texts as characters.

use vireo::decimal::decimal_string;
use vireo::dpi::{
    dim_to_winit, dp, pixel_of, pp_to_phys, px, to_pixel_pos, to_pixel_size, Dim, Dp, Pp, Px, ToPx,
};
use vireo::text::{chars_of, count_line_feeds, parse_u32, replace_all};

fn bits(v: f64) -> u64 {
    v.to_bits()
}

fn times(a: u64, b: u64) -> u64 {
    bits(f64::from_bits(a) * f64::from_bits(b))
}

fn over(a: u64, b: u64) -> u64 {
    bits(f64::from_bits(a) / f64::from_bits(b))
}

#[test]
fn kinds_of_pixels() {
    assert_eq!(px(bits(3.0)), Px(bits(3.0)));
    assert_eq!(dp(bits(3.0)), Dp(bits(3.0)));
    assert_eq!(Pp::default(), Pp::Dp(Dp(bits(0.0))));
    assert!(Pp::from(px(bits(1.0))).is_px());
    assert!(!Pp::from(dp(bits(1.0))).is_px());
    assert_eq!(px(bits(10.0)).to_px(bits(2.0), &times), px(bits(10.0)));
    assert_eq!(dp(bits(10.0)).to_px(bits(2.0), &times), px(bits(20.0)));
    assert_eq!(Pp::from(dp(bits(10.0))).to_px(bits(1.5), &times), px(bits(15.0)));
}

#[test]
fn physical_numbers() {
    let logical = Pp::from(dp(bits(10.0)));
    assert_eq!(pp_to_phys(logical, None, bits(1.5), &times), bits(15.0));
    assert_eq!(pp_to_phys(logical, Some(bits(2.0)), bits(1.5), &times), bits(20.0));
    assert_eq!(pp_to_phys(logical, Some(bits(-2.0)), bits(1.5), &times), bits(10.0));
    assert_eq!(pp_to_phys(logical, None, bits(f64::NAN), &times), bits(10.0));
    assert_eq!(pp_to_phys(Pp::from(px(bits(7.0))), Some(bits(2.0)), bits(1.5), &times), bits(7.0));
}

#[test]
fn dimensions_for_the_system() {
    let l = Pp::from(dp(bits(10.0)));
    let p = Pp::from(px(bits(7.0)));
    assert_eq!(dim_to_winit(l, l, None, bits(2.0), &times), Dim::Logical(bits(10.0), bits(10.0)));
    assert_eq!(
        dim_to_winit(l, l, Some(bits(0.0)), bits(2.0), &times),
        Dim::Logical(bits(10.0), bits(10.0))
    );
    assert_eq!(
        dim_to_winit(l, l, Some(bits(3.0)), bits(2.0), &times),
        Dim::Physical(bits(30.0), bits(30.0))
    );
    assert_eq!(
        dim_to_winit(p, l, None, bits(2.0), &times),
        Dim::Physical(bits(7.0), bits(20.0))
    );
}

#[test]
fn numbers_in_both_kinds() {
    let p = pixel_of(bits(30.0), bits(2.0), &over);
    assert_eq!((p.px, p.dp), (px(bits(30.0)), dp(bits(15.0))));
    assert_eq!(pixel_of(bits(30.0), bits(0.0), &over).dp, dp(bits(30.0)));
    let pos = to_pixel_pos(bits(8.0), bits(4.0), bits(2.0), &over);
    assert_eq!(pos.physical(), (bits(8.0), bits(4.0)));
    assert_eq!(pos.logical(), (bits(4.0), bits(2.0)));
    let size = to_pixel_size(bits(8.0), bits(4.0), bits(4.0), &over);
    assert_eq!(size.physical(), (bits(8.0), bits(4.0)));
    assert_eq!(size.logical(), (bits(2.0), bits(1.0)));
}

#[test]
fn texts_are_replaced_from_left_to_right() {
    assert_eq!(replace_all("aaaa", "aa", "b"), "aaaa".replace("aa", "b"));
    assert_eq!(replace_all("über", "ü", "ue"), "ueber");
    assert_eq!(replace_all("none", "x", "y"), "none");
}

#[test]
fn numbers_in_texts() {
    let all = |s: &str| {
        let c = chars_of(s);
        parse_u32(&c, 0, c.len())
    };
    assert_eq!(all("4294967295"), Some(u32::MAX));
    assert_eq!(all("4294967296"), None);
    assert_eq!(all("+17"), Some(17));
    assert_eq!(all("+"), None);
    assert_eq!(all(""), None);
    assert_eq!(all("-1"), None);
    assert_eq!(all("007"), Some(7));
    assert_eq!(decimal_string(0), "0");
    assert_eq!(decimal_string(u64::MAX), "18446744073709551615");
    assert_eq!(count_line_feeds("a\nb\n"), 2);
}
