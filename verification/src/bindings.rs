//! The bind group layouts.

use vstd::prelude::*;

verus! {

/// What is bound.
#[derive(Clone, Copy, Debug, PartialEq, Eq, Structural)]
pub enum BindingKind {
    /// A uniform buffer with at least the given size, if there is one.
    Uniform { least: Option<u64> },
    /// A storage buffer that is only read.
    Storage,
    /// A two-dimensional texture of filterable floats.
    Texture,
    /// A sampler that filters.
    Sampler,
}

/// One entry of a bind group layout.
#[derive(Clone, Copy, Debug, PartialEq, Eq, Structural)]
pub struct Binding {
    pub binding: u32,
    pub vertex: bool,
    pub fragment: bool,
    pub kind: BindingKind,
}

/// An entry that the vertex stage sees.
pub open spec fn in_vertex(binding: u32, kind: BindingKind) -> Binding {
    Binding { binding, vertex: true, fragment: false, kind }
}

/// An entry that the fragment stage sees.
pub open spec fn in_fragment(binding: u32, kind: BindingKind) -> Binding {
    Binding { binding, vertex: false, fragment: true, kind }
}

/// An entry that both stages see.
pub open spec fn in_both(binding: u32, kind: BindingKind) -> Binding {
    Binding { binding, vertex: true, fragment: true, kind }
}

/// Whether the entries are numbered from 0 in order.
pub open spec fn in_order(bindings: Seq<Binding>) -> bool {
    forall|i: int| 0 <= i < bindings.len() ==> (#[trigger] bindings[i]).binding == i
}

fn entry(binding: u32, vertex: bool, fragment: bool, kind: BindingKind) -> (r: Binding)
    ensures
        r == (Binding { binding, vertex, fragment, kind }),
{
    Binding { binding, vertex, fragment, kind }
}

/// Group 0 of shapes: the camera.
pub fn camera_bindings() -> (r: Vec<Binding>)
    ensures
        in_order(r@),
        r@ == seq![in_both(0, BindingKind::Uniform { least: None })],
{
    vec![entry(0, true, true, BindingKind::Uniform { least: None })]
}

/// Group 1 of shapes: a texture and its sampler.
pub fn texture_bindings() -> (r: Vec<Binding>)
    ensures
        in_order(r@),
        r@ == seq![in_fragment(0, BindingKind::Texture), in_fragment(1, BindingKind::Sampler)],
{
    vec![
        entry(0, false, true, BindingKind::Texture),
        entry(1, false, true, BindingKind::Sampler),
    ]
}

/// Group 2: transforms for the vertex stage, edges for the fragment stage.
pub fn engine_storage_bindings() -> (r: Vec<Binding>)
    ensures
        in_order(r@),
        r@ == seq![in_vertex(0, BindingKind::Storage), in_fragment(1, BindingKind::Storage)],
{
    vec![
        entry(0, true, false, BindingKind::Storage),
        entry(1, false, true, BindingKind::Storage),
    ]
}

/// Group 3 of custom materials: a buffer, then four textures, each with its
/// sampler.
pub fn custom_material_bindings() -> (r: Vec<Binding>)
    ensures
        in_order(r@),
        r@.len() == 9,
        r@[0] == in_both(0, BindingKind::Storage),
        forall|i: int|
            0 <= i < 4 ==> #[trigger] r@[2 * i + 1] == in_fragment(
                (2 * i + 1) as u32,
                BindingKind::Texture,
            ),
        forall|i: int|
            0 <= i < 4 ==> #[trigger] r@[2 * i + 2] == in_fragment(
                (2 * i + 2) as u32,
                BindingKind::Sampler,
            ),
{
    let mut r: Vec<Binding> = vec![entry(0, true, true, BindingKind::Storage)];
    let mut k: u32 = 0;
    while k < 4
        invariant
            k <= 4,
            r@.len() == 2 * k + 1,
            in_order(r@),
            r@[0] == in_both(0, BindingKind::Storage),
            forall|i: int|
                0 <= i < k ==> #[trigger] r@[2 * i + 1] == in_fragment(
                    (2 * i + 1) as u32,
                    BindingKind::Texture,
                ),
            forall|i: int|
                0 <= i < k ==> #[trigger] r@[2 * i + 2] == in_fragment(
                    (2 * i + 2) as u32,
                    BindingKind::Sampler,
                ),
        decreases 4 - k,
    {
        r.push(entry(2 * k + 1, false, true, BindingKind::Texture));
        r.push(entry(2 * k + 2, false, true, BindingKind::Sampler));
        k = k + 1;
    }
    r
}

/// Group 0 of texts: the colour and the mask atlas with their sampler, then the
/// batch's texture with its own.
pub fn glyph_atlas_bindings() -> (r: Vec<Binding>)
    ensures
        in_order(r@),
        r@ == seq![
            in_both(0, BindingKind::Texture),
            in_both(1, BindingKind::Texture),
            in_fragment(2, BindingKind::Sampler),
            in_fragment(3, BindingKind::Texture),
            in_fragment(4, BindingKind::Sampler),
        ],
{
    vec![
        entry(0, true, true, BindingKind::Texture),
        entry(1, true, true, BindingKind::Texture),
        entry(2, false, true, BindingKind::Sampler),
        entry(3, false, true, BindingKind::Texture),
        entry(4, false, true, BindingKind::Sampler),
    ]
}

/// Group 1 of texts: the resolution of the screen, of the given size.
pub fn glyph_uniform_bindings(params_size: u64) -> (r: Vec<Binding>)
    ensures
        in_order(r@),
        r@ == seq![
            in_vertex(
                0,
                BindingKind::Uniform {
                    least: if params_size == 0 {
                        None
                    } else {
                        Some(params_size)
                    },
                },
            ),
        ],
{
    let least = if params_size == 0 {
        None
    } else {
        Some(params_size)
    };
    vec![entry(0, true, false, BindingKind::Uniform { least })]
}

} // verus!
