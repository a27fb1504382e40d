//! Logical and physical pixels, and which of the two a caller meant.

use crate::vertex::F64Bits;
use vstd::prelude::*;

verus! {

/// Physical pixels.
#[derive(Clone, Copy, Debug, PartialEq, Eq, Structural)]
pub struct Px(pub F64Bits);

/// Logical pixels.
#[derive(Clone, Copy, Debug, PartialEq, Eq, Structural)]
pub struct Dp(pub F64Bits);

/// Physical pixels.
pub fn px(v: F64Bits) -> (r: Px)
    ensures
        r == Px(v),
{
    Px(v)
}

/// Logical pixels.
pub fn dp(v: F64Bits) -> (r: Dp)
    ensures
        r == Dp(v),
{
    Dp(v)
}

/// Pixels of either kind.
#[derive(Clone, Copy, Debug, PartialEq, Eq, Structural)]
pub enum Pp {
    Dp(Dp),
    Px(Px),
}

impl Default for Pp {
    fn default() -> (r: Pp)
        ensures
            r == Pp::Dp(Dp(0)),
    {
        Pp::Dp(Dp(0))
    }
}

impl From<Px> for Pp {
    fn from(v: Px) -> (r: Pp) {
        Pp::Px(v)
    }
}

impl vstd::std_specs::convert::FromSpecImpl<Px> for Pp {
    open spec fn obeys_from_spec() -> bool {
        true
    }

    open spec fn from_spec(v: Px) -> Pp {
        Pp::Px(v)
    }
}

impl From<Dp> for Pp {
    fn from(v: Dp) -> (r: Pp) {
        Pp::Dp(v)
    }
}

impl vstd::std_specs::convert::FromSpecImpl<Dp> for Pp {
    open spec fn obeys_from_spec() -> bool {
        true
    }

    open spec fn from_spec(v: Dp) -> Pp {
        Pp::Dp(v)
    }
}

/// What can be turned into physical pixels, by a multiplication of floats that
/// the caller brings.
pub trait ToPx: Sized {
    /// Whether the value is already physical.
    spec fn physical(self) -> bool;

    /// The number, whatever its kind.
    spec fn number(self) -> F64Bits;

    /// The physical pixels at `dpi` physical pixels per logical one.
    fn to_px<F: Fn(F64Bits, F64Bits) -> F64Bits>(self, dpi: F64Bits, times: &F) -> (r: Px)
        requires
            self.physical() || times.requires((self.number(), dpi)),
        ensures
            self.physical() ==> r == Px(self.number()),
            !self.physical() ==> times.ensures((self.number(), dpi), r.0),
    ;

    /// Whether the value is already physical.
    fn is_px(&self) -> (r: bool)
        ensures
            r == self.physical(),
    ;
}

impl ToPx for Px {
    open spec fn physical(self) -> bool {
        true
    }

    open spec fn number(self) -> F64Bits {
        self.0
    }

    fn to_px<F: Fn(F64Bits, F64Bits) -> F64Bits>(self, dpi: F64Bits, times: &F) -> (r: Px) {
        self
    }

    fn is_px(&self) -> (r: bool) {
        true
    }
}

impl ToPx for Dp {
    open spec fn physical(self) -> bool {
        false
    }

    open spec fn number(self) -> F64Bits {
        self.0
    }

    fn to_px<F: Fn(F64Bits, F64Bits) -> F64Bits>(self, dpi: F64Bits, times: &F) -> (r: Px) {
        Px(times(self.0, dpi))
    }

    fn is_px(&self) -> (r: bool) {
        false
    }
}

impl ToPx for Pp {
    open spec fn physical(self) -> bool {
        self is Px
    }

    open spec fn number(self) -> F64Bits {
        match self {
            Pp::Dp(v) => v.0,
            Pp::Px(v) => v.0,
        }
    }

    fn to_px<F: Fn(F64Bits, F64Bits) -> F64Bits>(self, dpi: F64Bits, times: &F) -> (r: Px) {
        match self {
            Pp::Px(v) => v,
            Pp::Dp(v) => Px(times(v.0, dpi)),
        }
    }

    fn is_px(&self) -> (r: bool) {
        matches!(self, Pp::Px(_))
    }
}

/// Whether a float is greater than zero.
pub open spec fn is_positive(v: F64Bits) -> bool {
    0 < v <= 0x7ff0_0000_0000_0000
}

fn positive(v: F64Bits) -> (r: bool)
    ensures
        r == is_positive(v),
{
    0 < v && v <= 0x7ff0_0000_0000_0000
}

/// The bits of the float 1.
pub const F64_ONE: F64Bits = 0x3ff0_0000_0000_0000;

/// Physical pixels per logical one: what overrides the system's scale, else
/// that; 1 if it is not positive.
pub open spec fn scale_of(dpi_override: Option<F64Bits>, os_scale: F64Bits) -> F64Bits {
    let scale = match dpi_override {
        Some(d) => d,
        None => os_scale,
    };
    if is_positive(scale) {
        scale
    } else {
        F64_ONE
    }
}

/// What [`pp_to_phys`] gives.
pub open spec fn phys_of<F: Fn(F64Bits, F64Bits) -> F64Bits>(
    v: Pp,
    dpi_override: Option<F64Bits>,
    os_scale: F64Bits,
    times: F,
    r: F64Bits,
) -> bool {
    match v {
        Pp::Px(v) => r == v.0,
        Pp::Dp(v) => times.ensures((v.0, scale_of(dpi_override, os_scale)), r),
    }
}

/// The physical pixels of a value.
pub fn pp_to_phys<F: Fn(F64Bits, F64Bits) -> F64Bits>(
    v: Pp,
    dpi_override: Option<F64Bits>,
    os_scale: F64Bits,
    times: &F,
) -> (r: F64Bits)
    requires
        forall|a: F64Bits, b: F64Bits| #[trigger] times.requires((a, b)),
    ensures
        phys_of(v, dpi_override, os_scale, *times, r),
{
    let scale: F64Bits = match dpi_override {
        Some(d) => d,
        None => os_scale,
    };
    match v {
        Pp::Px(v) => v.0,
        Pp::Dp(v) => {
            let by: F64Bits = if positive(scale) {
                scale
            } else {
                F64_ONE
            };
            times(v.0, by)
        },
    }
}

/// How a size or a position is handed to the windowing system: as logical
/// pixels that it scales, or as physical ones, not yet rounded.
#[derive(Clone, Copy, Debug, PartialEq, Eq, Structural)]
pub enum Dim {
    Logical(F64Bits, F64Bits),
    Physical(F64Bits, F64Bits),
}

/// How two values are handed over. Two logical ones stay logical unless a
/// positive scale overrides the system's; one physical one makes both physical,
/// each by itself.
pub fn dim_to_winit<F: Fn(F64Bits, F64Bits) -> F64Bits>(
    x: Pp,
    y: Pp,
    dpi_override: Option<F64Bits>,
    os_scale: F64Bits,
    times: &F,
) -> (r: Dim)
    requires
        forall|a: F64Bits, b: F64Bits| #[trigger] times.requires((a, b)),
    ensures
        r is Logical <==> x is Dp && y is Dp && !(dpi_override matches Some(d) && is_positive(d)),
        r matches Dim::Logical(a, b) ==> x == Pp::Dp(Dp(a)) && y == Pp::Dp(Dp(b)),
        r matches Dim::Physical(a, b) ==> phys_of(x, dpi_override, os_scale, *times, a) && phys_of(
            y,
            dpi_override,
            os_scale,
            *times,
            b,
        ),
{
    match (x, y) {
        (Pp::Dp(a), Pp::Dp(b)) => match dpi_override {
            Some(d) => {
                if positive(d) {
                    Dim::Physical(times(a.0, d), times(b.0, d))
                } else {
                    Dim::Logical(a.0, b.0)
                }
            },
            None => Dim::Logical(a.0, b.0),
        },
        _ => Dim::Physical(
            pp_to_phys(x, dpi_override, os_scale, times),
            pp_to_phys(y, dpi_override, os_scale, times),
        ),
    }
}

/// One number in both kinds of pixels.
#[derive(Clone, Copy, Debug, PartialEq, Eq, Structural)]
pub struct Pixel {
    pub px: Px,
    pub dp: Dp,
}

/// A position in both kinds of pixels.
#[derive(Clone, Copy, Debug, PartialEq, Eq, Structural)]
pub struct PixelPos {
    pub x: Pixel,
    pub y: Pixel,
}

/// A size in both kinds of pixels.
#[derive(Clone, Copy, Debug, PartialEq, Eq, Structural)]
pub struct PixelSize {
    pub width: Pixel,
    pub height: Pixel,
}

impl PixelPos {
    /// The physical coordinates.
    pub fn physical(&self) -> (r: (F64Bits, F64Bits))
        ensures
            r == (self.x.px.0, self.y.px.0),
    {
        (self.x.px.0, self.y.px.0)
    }

    /// The logical coordinates.
    pub fn logical(&self) -> (r: (F64Bits, F64Bits))
        ensures
            r == (self.x.dp.0, self.y.dp.0),
    {
        (self.x.dp.0, self.y.dp.0)
    }
}

impl PixelSize {
    /// The physical size.
    pub fn physical(&self) -> (r: (F64Bits, F64Bits))
        ensures
            r == (self.width.px.0, self.height.px.0),
    {
        (self.width.px.0, self.height.px.0)
    }

    /// The logical size.
    pub fn logical(&self) -> (r: (F64Bits, F64Bits))
        ensures
            r == (self.width.dp.0, self.height.dp.0),
    {
        (self.width.dp.0, self.height.dp.0)
    }
}

/// Whether `r` is the physical number `v` in both kinds of pixels.
pub open spec fn is_pixel_of<F: Fn(F64Bits, F64Bits) -> F64Bits>(
    v: F64Bits,
    scale: F64Bits,
    over: F,
    r: Pixel,
) -> bool {
    &&& r.px == Px(v)
    &&& is_positive(scale) ==> over.ensures((v, scale), r.dp.0)
    &&& !is_positive(scale) ==> r.dp == Dp(v)
}

/// A physical number in both kinds of pixels. Logical is physical over scale;
/// a scale that is not positive changes nothing.
pub fn pixel_of<F: Fn(F64Bits, F64Bits) -> F64Bits>(v: F64Bits, scale: F64Bits, over: &F) -> (r:
    Pixel)
    requires
        is_positive(scale) ==> over.requires((v, scale)),
    ensures
        is_pixel_of(v, scale, *over, r),
{
    let logical: F64Bits = if positive(scale) {
        over(v, scale)
    } else {
        v
    };
    Pixel { px: Px(v), dp: Dp(logical) }
}

/// A physical position in both kinds of pixels.
pub fn to_pixel_pos<F: Fn(F64Bits, F64Bits) -> F64Bits>(
    x: F64Bits,
    y: F64Bits,
    scale: F64Bits,
    over: &F,
) -> (r: PixelPos)
    requires
        is_positive(scale) ==> over.requires((x, scale)) && over.requires((y, scale)),
    ensures
        is_pixel_of(x, scale, *over, r.x),
        is_pixel_of(y, scale, *over, r.y),
{
    PixelPos { x: pixel_of(x, scale, over), y: pixel_of(y, scale, over) }
}

/// A physical size in both kinds of pixels.
pub fn to_pixel_size<F: Fn(F64Bits, F64Bits) -> F64Bits>(
    w: F64Bits,
    h: F64Bits,
    scale: F64Bits,
    over: &F,
) -> (r: PixelSize)
    requires
        is_positive(scale) ==> over.requires((w, scale)) && over.requires((h, scale)),
    ensures
        is_pixel_of(w, scale, *over, r.width),
        is_pixel_of(h, scale, *over, r.height),
{
    PixelSize { width: pixel_of(w, scale, over), height: pixel_of(h, scale, over) }
}

} // verus!
