//! Positions, rectangles and transforms, as bit patterns.

use vstd::prelude::*;
use crate::vertex::{F32Bits, F32_ONE};

verus! {

/// An axis-aligned rectangle.
#[derive(Clone, Copy, Debug, PartialEq, Eq, Structural)]
pub struct Rect {
    pub x: F32Bits,
    pub y: F32Bits,
    pub w: F32Bits,
    pub h: F32Bits,
}

impl Rect {
    /// The rectangle with the given corner and size.
    pub fn new(x: F32Bits, y: F32Bits, w: F32Bits, h: F32Bits) -> (r: Self)
        ensures
            r == (Rect { x, y, w, h }),
    {
        Rect { x, y, w, h }
    }

    /// The left edge.
    pub fn left(&self) -> (r: F32Bits)
        ensures
            r == self.x,
    {
        self.x
    }

    /// The top edge.
    pub fn top(&self) -> (r: F32Bits)
        ensures
            r == self.y,
    {
        self.y
    }
}

/// A position.
#[derive(Clone, Copy, Debug, PartialEq, Eq, Structural)]
pub struct Pos {
    pub x: F32Bits,
    pub y: F32Bits,
}

impl Pos {
    /// The position with the given coordinates.
    pub fn new(x: F32Bits, y: F32Bits) -> (r: Self)
        ensures
            r == (Pos { x, y }),
    {
        Pos { x, y }
    }
}

impl Default for Pos {
    fn default() -> (r: Self)
        ensures
            r == (Pos { x: 0, y: 0 }),
    {
        Pos { x: 0, y: 0 }
    }
}

/// A part of a texture.
#[derive(Clone, Copy, Debug, PartialEq, Eq, Structural)]
pub struct UvRect {
    pub u0: F32Bits,
    pub v0: F32Bits,
    pub u1: F32Bits,
    pub v1: F32Bits,
}

impl Default for UvRect {
    fn default() -> (r: Self)
        ensures
            r == (UvRect { u0: 0, v0: 0, u1: F32_ONE, v1: F32_ONE }),
    {
        UvRect { u0: 0, v0: 0, u1: F32_ONE, v1: F32_ONE }
    }
}

impl UvRect {
    /// The corners: left top, right top, right bottom, left bottom.
    pub fn corners(&self) -> (r: [(F32Bits, F32Bits); 4])
        ensures
            r@ == seq![
                (self.u0, self.v0),
                (self.u1, self.v0),
                (self.u1, self.v1),
                (self.u0, self.v1),
            ],
    {
        let r = [
            (self.u0, self.v0),
            (self.u1, self.v0),
            (self.u1, self.v1),
            (self.u0, self.v1),
        ];
        assert(r@ =~= seq![
            (self.u0, self.v0),
            (self.u1, self.v0),
            (self.u1, self.v1),
            (self.u0, self.v1),
        ]);
        r
    }
}

/// A brush transform: the linear part `[a b; c d]`, the position of the local
/// origin, and the local centre of rotation and scaling.
#[derive(Clone, Copy, Debug, PartialEq, Eq, Structural)]
pub struct Transform {
    pub a: F32Bits,
    pub b: F32Bits,
    pub c: F32Bits,
    pub d: F32Bits,
    pub x: F32Bits,
    pub y: F32Bits,
    pub px: F32Bits,
    pub py: F32Bits,
}

impl Transform {
    /// The transform that changes nothing.
    pub open spec fn spec_identity() -> Transform {
        Transform { a: F32_ONE, b: 0, c: 0, d: F32_ONE, x: 0, y: 0, px: 0, py: 0 }
    }

    /// The transform that changes nothing.
    pub fn identity() -> (r: Self)
        ensures
            r == Transform::spec_identity(),
    {
        Transform { a: F32_ONE, b: 0, c: 0, d: F32_ONE, x: 0, y: 0, px: 0, py: 0 }
    }

    /// A move by `(x, y)`.
    pub fn translation(x: F32Bits, y: F32Bits) -> (r: Self)
        ensures
            r == (Transform { x, y, ..Transform::spec_identity() }),
    {
        Transform { a: F32_ONE, b: 0, c: 0, d: F32_ONE, x, y, px: 0, py: 0 }
    }

    /// The transform `[a b tx; c d ty; 0 0 1]`, centred on the origin.
    pub fn matrix(a: F32Bits, b: F32Bits, c: F32Bits, d: F32Bits, tx: F32Bits, ty: F32Bits) -> (r:
        Self)
        ensures
            r == (Transform { a, b, c, d, x: tx, y: ty, px: 0, py: 0 }),
    {
        Transform { a, b, c, d, x: tx, y: ty, px: 0, py: 0 }
    }
}

impl Default for Transform {
    fn default() -> (r: Self)
        ensures
            r == Transform::spec_identity(),
    {
        Transform::identity()
    }
}

/// The columns of an affine matrix, the third row `0 0 1` left out.
#[derive(Clone, Copy, Debug, PartialEq, Eq, Structural)]
pub struct Affine {
    pub a: F32Bits,
    pub c: F32Bits,
    pub b: F32Bits,
    pub d: F32Bits,
    pub tx: F32Bits,
    pub ty: F32Bits,
}

impl Affine {
    /// The matrix that changes nothing.
    pub open spec fn spec_identity() -> Affine {
        Affine { a: F32_ONE, c: 0, b: 0, d: F32_ONE, tx: 0, ty: 0 }
    }

    /// The matrix that changes nothing.
    pub fn identity() -> (r: Self)
        ensures
            r == Affine::spec_identity(),
    {
        Affine { a: F32_ONE, c: 0, b: 0, d: F32_ONE, tx: 0, ty: 0 }
    }
}

} // verus!
