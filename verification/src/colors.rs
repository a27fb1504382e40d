//! Colours with names, as red, green, blue and opacity.

use crate::vertex::ColorBits;
use vstd::prelude::*;

verus! {

pub const LIGHTGRAY: ColorBits = [0x3f47ae14, 0x3f47ae14, 0x3f47ae14, 0x3f800000];

pub const GRAY: ColorBits = [0x3f028f5c, 0x3f028f5c, 0x3f028f5c, 0x3f800000];

pub const DARKGRAY: ColorBits = [0x3e9eb852, 0x3e9eb852, 0x3e9eb852, 0x3f800000];

pub const YELLOW: ColorBits = [0x3f7d70a4, 0x3f7ae148, 0, 0x3f800000];

pub const GOLD: ColorBits = [0x3f800000, 0x3f4ccccd, 0, 0x3f800000];

pub const ORANGE: ColorBits = [0x3f800000, 0x3f2147ae, 0, 0x3f800000];

pub const PINK: ColorBits = [0x3f800000, 0x3edc28f6, 0x3f428f5c, 0x3f800000];

pub const RED: ColorBits = [0x3f666666, 0x3e23d70a, 0x3e6147ae, 0x3f800000];

pub const MAROON: ColorBits = [0x3f400000, 0x3e051eb8, 0x3e6147ae, 0x3f800000];

pub const GREEN: ColorBits = [0, 0x3f63d70a, 0x3e428f5c, 0x3f800000];

pub const LIME: ColorBits = [0, 0x3f1eb852, 0x3e3851ec, 0x3f800000];

pub const DARKGREEN: ColorBits = [0, 0x3eeb851f, 0x3e2e147b, 0x3f800000];

pub const SKYBLUE: ColorBits = [0x3ecccccd, 0x3f400000, 0x3f800000, 0x3f800000];

pub const BLUE: ColorBits = [0, 0x3ef0a3d7, 0x3f733333, 0x3f800000];

pub const DARKBLUE: ColorBits = [0, 0x3ea3d70a, 0x3f2b851f, 0x3f800000];

pub const PURPLE: ColorBits = [0x3f47ae14, 0x3ef5c28f, 0x3f800000, 0x3f800000];

pub const VIOLET: ColorBits = [0x3f07ae14, 0x3e75c28f, 0x3f400000, 0x3f800000];

pub const DARKPURPLE: ColorBits = [0x3ee147ae, 0x3df5c28f, 0x3efae148, 0x3f800000];

pub const BEIGE: ColorBits = [0x3f547ae1, 0x3f30a3d7, 0x3f028f5c, 0x3f800000];

pub const BROWN: ColorBits = [0x3f000000, 0x3ed70a3d, 0x3e9eb852, 0x3f800000];

pub const DARKBROWN: ColorBits = [0x3e99999a, 0x3e428f5c, 0x3dcccccd, 0x3f800000];

pub const WHITE: ColorBits = [0x3f800000, 0x3f800000, 0x3f800000, 0x3f800000];

pub const BLACK: ColorBits = [0, 0, 0, 0x3f800000];

pub const BLANK: ColorBits = [0, 0, 0, 0];

pub const MAGENTA: ColorBits = [0x3f800000, 0, 0x3f800000, 0x3f800000];

} // verus!
