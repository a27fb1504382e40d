//! The keys of pipelines.

use std::hash::{DefaultHasher, Hash, Hasher};
use vstd::prelude::*;
use vstd::std_specs::hash::DefaultHasherAdditionalSpecFns;

verus! {

/// What shaders are told when they draw a shape.
pub const VIREO_TARGET_SHAPE: u32 = 0;

/// What shaders are told when they draw a text.
pub const VIREO_TARGET_TEXT: u32 = 1;

/// What a material is drawn on.
#[derive(Clone, Copy, Debug, PartialEq, Eq, Structural)]
pub enum MaterialTarget {
    Shape,
    Text,
}

/// The vertex buffers of a shape.
#[derive(Clone, Copy, Debug, PartialEq, Eq, Structural)]
pub enum ShapeVertexLayout {
    /// One buffer of vertices.
    Mesh,
    /// A unit square, and one record per distance shape.
    SdfInstance,
    /// Templates, and one record per shape.
    GeoInstance,
}

impl MaterialTarget {
    /// The number of a target.
    pub open spec fn number(self) -> u64 {
        match self {
            MaterialTarget::Shape => 0,
            MaterialTarget::Text => 1,
        }
    }
}

impl ShapeVertexLayout {
    /// The number of a layout.
    pub open spec fn number(self) -> u64 {
        match self {
            ShapeVertexLayout::Mesh => 0,
            ShapeVertexLayout::SdfInstance => 1,
            ShapeVertexLayout::GeoInstance => 2,
        }
    }
}

// ---------------------------------------------------------------------------
// Keys
// ---------------------------------------------------------------------------

/// One for true.
pub open spec fn spec_flag(b: bool) -> u64 {
    if b {
        1
    } else {
        0
    }
}

/// The smaller of two numbers.
pub open spec fn spec_least(a: u32, b: u32) -> u32 {
    if a <= b {
        a
    } else {
        b
    }
}

pub(crate) fn flag(b: bool) -> (r: u64)
    ensures
        r == spec_flag(b),
{
    if b {
        1
    } else {
        0
    }
}

pub(crate) fn least(a: u32, b: u32) -> (r: u32)
    ensures
        r == spec_least(a, b),
{
    if a <= b {
        a
    } else {
        b
    }
}

/// The fields of a material's key, side by side: target from bit 0, sample
/// count from 4, layout from 8, flags at 12, 13 and 14, stencil op from 16,
/// format from 20.
pub open spec fn packed_key(
    target: u64,
    sample_count: u64,
    layout: u64,
    coverage: u64,
    stencil: u64,
    ssaa: u64,
    op: u64,
    format: u64,
) -> u64 {
    target | (sample_count << 4) | (layout << 8) | (coverage << 12) | (stencil << 13) | (ssaa << 14)
        | (op << 16) | (format << 20)
}

/// The key of a material's pipeline. Layout and supersampling count for shapes
/// only.
pub open spec fn material_key(
    target: MaterialTarget,
    sample_count: u32,
    alpha_to_coverage: bool,
    ssaa: bool,
    stencil_mode: bool,
    stencil_op: u32,
    shape_layout: ShapeVertexLayout,
    format_bits: u32,
) -> u64 {
    packed_key(
        target.number(),
        sample_count as u64,
        if target == MaterialTarget::Shape {
            shape_layout.number()
        } else {
            0
        },
        spec_flag(alpha_to_coverage),
        spec_flag(stencil_mode),
        spec_flag(ssaa && target == MaterialTarget::Shape),
        spec_least(stencil_op, 4) as u64,
        format_bits as u64,
    )
}

/// The key of a material's pipeline for a format of which some bits are given.
pub fn material_format_key(
    target: MaterialTarget,
    sample_count: u32,
    alpha_to_coverage: bool,
    ssaa: bool,
    stencil_mode: bool,
    stencil_op: u32,
    shape_layout: ShapeVertexLayout,
    format_bits: u32,
) -> (r: u64)
    ensures
        r == material_key(
            target,
            sample_count,
            alpha_to_coverage,
            ssaa,
            stencil_mode,
            stencil_op,
            shape_layout,
            format_bits,
        ),
{
    let shape = matches!(target, MaterialTarget::Shape);
    let target_number: u64 = if shape {
        0
    } else {
        1
    };
    let layout: u64 = if !shape {
        0
    } else {
        match shape_layout {
            ShapeVertexLayout::Mesh => 0,
            ShapeVertexLayout::SdfInstance => 1,
            ShapeVertexLayout::GeoInstance => 2,
        }
    };
    target_number | ((sample_count as u64) << 4) | (layout << 8) | (flag(alpha_to_coverage) << 12)
        | (flag(stencil_mode) << 13) | (flag(ssaa && shape) << 14) | ((least(stencil_op, 4) as u64)
        << 16) | ((format_bits as u64) << 20)
}

proof fn lemma_packed_fields(
    target: u64,
    sample_count: u64,
    layout: u64,
    coverage: u64,
    stencil: u64,
    ssaa: u64,
    op: u64,
    format: u64,
)
    requires
        target < 16,
        sample_count < 16,
        layout < 16,
        coverage <= 1,
        stencil <= 1,
        ssaa <= 1,
        op < 16,
        format < 4096,
    ensures
        ({
            let key = packed_key(
                target,
                sample_count,
                layout,
                coverage,
                stencil,
                ssaa,
                op,
                format,
            );
            &&& key & 15 == target
            &&& (key >> 4) & 15 == sample_count
            &&& (key >> 8) & 15 == layout
            &&& (key >> 12) & 1 == coverage
            &&& (key >> 13) & 1 == stencil
            &&& (key >> 14) & 1 == ssaa
            &&& (key >> 16) & 15 == op
            &&& (key >> 20) == format
        }),
{
    let key = packed_key(target, sample_count, layout, coverage, stencil, ssaa, op, format);
    assert(key & 15 == target && (key >> 4) & 15 == sample_count && (key >> 8) & 15 == layout && (
    key >> 12) & 1 == coverage && (key >> 13) & 1 == stencil && (key >> 14) & 1 == ssaa && (key
        >> 16) & 15 == op && (key >> 20) == format) by (bit_vector)
        requires
            key == target | (sample_count << 4) | (layout << 8) | (coverage << 12) | (stencil << 13)
                | (ssaa << 14) | (op << 16) | (format << 20),
            target < 16,
            sample_count < 16,
            layout < 16,
            coverage <= 1,
            stencil <= 1,
            ssaa <= 1,
            op < 16,
            format < 4096,
    ;
}

/// Law: two pipelines of materials have the same key exactly if they agree in
/// everything that counts, for sample counts below 16 and twelve format bits.
pub proof fn lemma_material_key_tells_apart(
    t1: MaterialTarget,
    n1: u32,
    a1: bool,
    s1: bool,
    m1: bool,
    o1: u32,
    l1: ShapeVertexLayout,
    f1: u32,
    t2: MaterialTarget,
    n2: u32,
    a2: bool,
    s2: bool,
    m2: bool,
    o2: u32,
    l2: ShapeVertexLayout,
    f2: u32,
)
    requires
        n1 < 16,
        n2 < 16,
        f1 < 4096,
        f2 < 4096,
    ensures
        (material_key(t1, n1, a1, s1, m1, o1, l1, f1) == material_key(
            t2,
            n2,
            a2,
            s2,
            m2,
            o2,
            l2,
            f2,
        )) <==> {
            &&& t1 == t2
            &&& n1 == n2
            &&& a1 == a2
            &&& m1 == m2
            &&& spec_least(o1, 4) == spec_least(o2, 4)
            &&& f1 == f2
            &&& t1 == MaterialTarget::Shape ==> s1 == s2 && l1 == l2
        },
{
    let shape1 = t1 == MaterialTarget::Shape;
    let shape2 = t2 == MaterialTarget::Shape;
    lemma_packed_fields(
        t1.number(),
        n1 as u64,
        if shape1 {
            l1.number()
        } else {
            0
        },
        spec_flag(a1),
        spec_flag(m1),
        spec_flag(s1 && shape1),
        spec_least(o1, 4) as u64,
        f1 as u64,
    );
    lemma_packed_fields(
        t2.number(),
        n2 as u64,
        if shape2 {
            l2.number()
        } else {
            0
        },
        spec_flag(a2),
        spec_flag(m2),
        spec_flag(s2 && shape2),
        spec_least(o2, 4) as u64,
        f2 as u64,
    );
}

/// `wgpu::TextureFormat`, the format of a texture.
#[verifier::external_type_specification]
#[verifier::external_body]
pub struct ExTextureFormat(wgpu::TextureFormat);

/// What a texture format writes into a hasher on a platform. Platforms differ in
/// byte order and in the sizes of integers, and the standard library says that
/// what is fed to a hasher differs with them.
pub uninterp spec fn format_writes(format: wgpu::TextureFormat, platform: int) -> Seq<Seq<u8>>;

/// `std::hash::Hash::hash` on a `wgpu::TextureFormat`: the hasher has, behind
/// what was written before, what the format writes on the platform at hand. It is
/// left unsaid which platform that is, and what the bytes are.
#[verifier::external_body]
fn feed_format(format: wgpu::TextureFormat, hasher: &mut DefaultHasher)
    ensures
        exists|platform: int|
            final(hasher)@ == old(hasher)@ + #[trigger] format_writes(format, platform),
{
    format.hash(hasher);
}

/// The lowest twelve bits of the default hash of a texture format on a platform.
pub open spec fn format_bits(format: wgpu::TextureFormat, platform: int) -> u32 {
    (DefaultHasher::spec_finish(format_writes(format, platform)) % 4096) as u32
}

/// Twelve bits that stand for a texture format in keys: the lowest of its hash.
pub fn surface_format_bits(format: wgpu::TextureFormat) -> (r: u32)
    ensures
        exists|platform: int| r == #[trigger] format_bits(format, platform),
        r < 4096,
{
    let mut hasher = DefaultHasher::new();
    feed_format(format, &mut hasher);
    let ghost platform = choose|platform: int|
        hasher@ == Seq::<Seq<u8>>::empty() + #[trigger] format_writes(format, platform);
    assert(hasher@ =~= format_writes(format, platform));
    let r = folded_format_bits(hasher.finish());
    assert(r == format_bits(format, platform));
    r
}

/// The lowest twelve bits of a hash.
pub fn folded_format_bits(hash: u64) -> (r: u32)
    ensures
        r == hash % 4096,
        r < 4096,
{
    let bits: u32 = (hash as u32) & 0x0fff;
    assert(bits == hash % 4096 && bits < 4096) by (bit_vector)
        requires
            bits == (hash as u32) & 0x0fff,
    ;
    bits
}

/// The key of a material's pipeline: that of [`material_format_key`] with the
/// bits that stand for the format.
pub fn material_pipeline_key(
    target: MaterialTarget,
    sample_count: u32,
    alpha_to_coverage: bool,
    ssaa: bool,
    stencil_mode: bool,
    stencil_op: u32,
    shape_layout: ShapeVertexLayout,
    format: wgpu::TextureFormat,
) -> (r: u64)
    ensures
        exists|platform: int|
            r == material_key(
                target,
                sample_count,
                alpha_to_coverage,
                ssaa,
                stencil_mode,
                stencil_op,
                shape_layout,
                #[trigger] format_bits(format, platform),
            ),
{
    let bits = surface_format_bits(format);
    material_format_key(
        target,
        sample_count,
        alpha_to_coverage,
        ssaa,
        stencil_mode,
        stencil_op,
        shape_layout,
        bits,
    )
}

/// The key of a built-in pipeline: sample count from bit 0, format from 4,
/// flags at 16, 17, 18 and 19, stencil op from 20, kind of instances from 23.
pub open spec fn builtin_key(
    sample_count: u32,
    format_bits: u32,
    coverage: bool,
    ssaa: bool,
    geometry: bool,
    stencil: bool,
    op: u32,
    instances: u32,
) -> u32 {
    sample_count | ((spec_flag(coverage) as u32) << 16) | ((spec_flag(ssaa) as u32) << 17) | ((
    spec_flag(geometry) as u32) << 18) | ((spec_flag(stencil) as u32) << 19) | (op << 20) | (
    instances << 23) | (format_bits << 4)
}

pub(crate) fn pack_builtin_key(
    sample_count: u32,
    format_bits: u32,
    coverage: bool,
    ssaa: bool,
    geometry: bool,
    stencil: bool,
    op: u32,
    instances: u32,
) -> (r: u32)
    ensures
        r == builtin_key(
            sample_count,
            format_bits,
            coverage,
            ssaa,
            geometry,
            stencil,
            op,
            instances,
        ),
{
    sample_count | ((flag(coverage) as u32) << 16) | ((flag(ssaa) as u32) << 17) | ((flag(
        geometry,
    ) as u32) << 18) | ((flag(stencil) as u32) << 19) | (op << 20) | (instances << 23) | (
    format_bits << 4)
}

proof fn lemma_builtin_fields(
    sample_count: u32,
    format_bits: u32,
    coverage: bool,
    ssaa: bool,
    geometry: bool,
    stencil: bool,
    op: u32,
    instances: u32,
)
    requires
        sample_count < 16,
        format_bits < 4096,
        op <= 4,
        instances <= 2,
    ensures
        ({
            let key = builtin_key(
                sample_count,
                format_bits,
                coverage,
                ssaa,
                geometry,
                stencil,
                op,
                instances,
            );
            &&& key & 15 == sample_count
            &&& (key >> 4) & 4095 == format_bits
            &&& (key >> 16) & 1 == spec_flag(coverage)
            &&& (key >> 17) & 1 == spec_flag(ssaa)
            &&& (key >> 18) & 1 == spec_flag(geometry)
            &&& (key >> 19) & 1 == spec_flag(stencil)
            &&& (key >> 20) & 7 == op
            &&& (key >> 23) == instances
        }),
{
    let a = spec_flag(coverage) as u32;
    let s = spec_flag(ssaa) as u32;
    let g = spec_flag(geometry) as u32;
    let m = spec_flag(stencil) as u32;
    let key = builtin_key(
        sample_count,
        format_bits,
        coverage,
        ssaa,
        geometry,
        stencil,
        op,
        instances,
    );
    assert(key & 15 == sample_count && (key >> 4) & 4095 == format_bits && (key >> 16) & 1 == a && (
    key >> 17) & 1 == s && (key >> 18) & 1 == g && (key >> 19) & 1 == m && (key >> 20) & 7 == op
        && (key >> 23) == instances) by (bit_vector)
        requires
            key == sample_count | (a << 16) | (s << 17) | (g << 18) | (m << 19) | (op << 20) | (
            instances << 23) | (format_bits << 4),
            sample_count < 16,
            format_bits < 4096,
            a <= 1,
            s <= 1,
            g <= 1,
            m <= 1,
            op <= 4,
            instances <= 2,
    ;
}

/// Law: two built-in pipelines have the same key exactly if they agree in
/// every field, for sample counts below 16 and twelve format bits.
pub proof fn lemma_builtin_key_tells_apart(
    n1: u32,
    f1: u32,
    a1: bool,
    s1: bool,
    g1: bool,
    m1: bool,
    o1: u32,
    i1: u32,
    n2: u32,
    f2: u32,
    a2: bool,
    s2: bool,
    g2: bool,
    m2: bool,
    o2: u32,
    i2: u32,
)
    requires
        n1 < 16,
        n2 < 16,
        f1 < 4096,
        f2 < 4096,
        o1 <= 4,
        o2 <= 4,
        i1 <= 2,
        i2 <= 2,
    ensures
        (builtin_key(n1, f1, a1, s1, g1, m1, o1, i1) == builtin_key(
            n2,
            f2,
            a2,
            s2,
            g2,
            m2,
            o2,
            i2,
        )) <==> (n1 == n2 && f1 == f2 && a1 == a2 && s1 == s2 && g1 == g2 && m1 == m2 && o1 == o2
            && i1 == i2),
{
    lemma_builtin_fields(n1, f1, a1, s1, g1, m1, o1, i1);
    lemma_builtin_fields(n2, f2, a2, s2, g2, m2, o2, i2);
}

} // verus!
