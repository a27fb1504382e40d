//! What a child batch takes over from its parent.

use vstd::prelude::*;

verus! {

/// Which attributes of its parent a child batch takes over when it is pushed
/// (`transform`, `color`, `sdf_feather`, `uv`), and whether it is clipped by
/// its ancestors when it is drawn (`clipped`).
#[derive(Clone, Copy, Debug, PartialEq, Eq, Structural)]
pub struct InheritFromParent {
    /// Multiply the parent's transform from the left into the whole subtree.
    pub transform: bool,
    /// Take over the brush colour; colours already in vertices stay.
    pub color: bool,
    /// Take over the feather width.
    pub sdf_feather: bool,
    /// Take over the texture rectangle.
    pub uv: bool,
    /// Test the stencil of clipping ancestors; otherwise draw past them.
    pub clipped: bool,
}

impl InheritFromParent {
    /// Nothing is taken over; still clipped.
    pub fn none() -> (r: Self)
        ensures
            r == (InheritFromParent {
                transform: false,
                color: false,
                sdf_feather: false,
                uv: false,
                clipped: true,
            }),
    {
        InheritFromParent {
            transform: false,
            color: false,
            sdf_feather: false,
            uv: false,
            clipped: true,
        }
    }

    /// Everything is taken over, and clipped.
    pub fn all() -> (r: Self)
        ensures
            r == (InheritFromParent {
                transform: true,
                color: true,
                sdf_feather: true,
                uv: true,
                clipped: true,
            }),
    {
        InheritFromParent {
            transform: true,
            color: true,
            sdf_feather: true,
            uv: true,
            clipped: true,
        }
    }

    /// Only the transform is taken over, and clipped.
    pub fn transform_only() -> (r: Self)
        ensures
            r == (InheritFromParent {
                transform: true,
                color: false,
                sdf_feather: false,
                uv: false,
                clipped: true,
            }),
    {
        InheritFromParent {
            transform: true,
            color: false,
            sdf_feather: false,
            uv: false,
            clipped: true,
        }
    }

    /// Takes the transform over.
    pub fn transform(self) -> (r: Self)
        ensures
            r == (InheritFromParent { transform: true, ..self }),
    {
        InheritFromParent { transform: true, ..self }
    }

    /// Leaves the transform.
    pub fn no_transform(self) -> (r: Self)
        ensures
            r == (InheritFromParent { transform: false, ..self }),
    {
        InheritFromParent { transform: false, ..self }
    }

    /// Takes the brush colour over.
    pub fn color(self) -> (r: Self)
        ensures
            r == (InheritFromParent { color: true, ..self }),
    {
        InheritFromParent { color: true, ..self }
    }

    /// Leaves the brush colour.
    pub fn no_color(self) -> (r: Self)
        ensures
            r == (InheritFromParent { color: false, ..self }),
    {
        InheritFromParent { color: false, ..self }
    }

    /// Takes the feather width over.
    pub fn sdf_feather(self) -> (r: Self)
        ensures
            r == (InheritFromParent { sdf_feather: true, ..self }),
    {
        InheritFromParent { sdf_feather: true, ..self }
    }

    /// Leaves the feather width.
    pub fn no_sdf_feather(self) -> (r: Self)
        ensures
            r == (InheritFromParent { sdf_feather: false, ..self }),
    {
        InheritFromParent { sdf_feather: false, ..self }
    }

    /// Takes the texture rectangle over.
    pub fn uv(self) -> (r: Self)
        ensures
            r == (InheritFromParent { uv: true, ..self }),
    {
        InheritFromParent { uv: true, ..self }
    }

    /// Leaves the texture rectangle.
    pub fn no_uv(self) -> (r: Self)
        ensures
            r == (InheritFromParent { uv: false, ..self }),
    {
        InheritFromParent { uv: false, ..self }
    }

    /// Is clipped by its ancestors.
    pub fn clipped(self) -> (r: Self)
        ensures
            r == (InheritFromParent { clipped: true, ..self }),
    {
        InheritFromParent { clipped: true, ..self }
    }

    /// Draws past its ancestors' clips.
    pub fn unclipped(self) -> (r: Self)
        ensures
            r == (InheritFromParent { clipped: false, ..self }),
    {
        InheritFromParent { clipped: false, ..self }
    }

    /// Whether pushing a child with these flags writes anything into it;
    /// clipping takes effect only when drawing and does not count.
    pub fn any(self) -> (r: bool)
        ensures
            r == (self.transform || self.color || self.sdf_feather || self.uv),
    {
        self.transform || self.color || self.sdf_feather || self.uv
    }
}

impl Default for InheritFromParent {
    fn default() -> (r: Self)
        ensures
            r == (InheritFromParent {
                transform: false,
                color: false,
                sdf_feather: false,
                uv: false,
                clipped: true,
            }),
    {
        InheritFromParent::none()
    }
}

} // verus!
