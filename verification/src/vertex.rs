//! Vertices and shape instances as the GPU reads them.

use vstd::prelude::*;

verus! {

/// An `f32` carried by its bit pattern.
pub type F32Bits = u32;

/// An `f64` carried by its bit pattern.
pub type F64Bits = u64;

/// The bit pattern of `1.0`.
pub const F32_ONE: F32Bits = 0x3f80_0000;

/// Whether a bit pattern is not a number.
pub open spec fn f32_is_nan(bits: F32Bits) -> bool {
    bits & 0x7fff_ffff > 0x7f80_0000
}

/// Whether a bit pattern is one of the two zeros.
pub open spec fn f32_is_zero(bits: F32Bits) -> bool {
    bits & 0x7fff_ffff == 0
}

/// Whether two bit patterns compare equal as numbers: the two zeros are equal,
/// and what is not a number equals nothing.
pub open spec fn spec_f32_eq(a: F32Bits, b: F32Bits) -> bool {
    !f32_is_nan(a) && !f32_is_nan(b) && (a == b || (f32_is_zero(a) && f32_is_zero(b)))
}

/// Whether two bit patterns compare equal as numbers.
pub fn f32_eq(a: F32Bits, b: F32Bits) -> (r: bool)
    ensures
        r == spec_f32_eq(a, b),
{
    let ma: u32 = a & 0x7fff_ffff;
    let mb: u32 = b & 0x7fff_ffff;
    ma <= 0x7f80_0000 && mb <= 0x7f80_0000 && (a == b || (ma == 0 && mb == 0))
}

/// A colour: red, green, blue, alpha.
pub type ColorBits = [F32Bits; 4];

/// One vertex of a shape, 68 bytes on the GPU.
///
/// `sdf_type` says which shape `sdf_params` and `sdf_extra` describe:
/// 0 none, 1 circle or ellipse, 2 rectangle, 3 line, 4 triangle, 5 arc,
/// 6 polygon, 7 line chain. `transform_index` names a row of the transform
/// table; row 0 is the identity.
#[derive(Clone, Copy, Debug)]
pub struct Vertex {
    pub position: [F32Bits; 2],
    pub uv: [F32Bits; 2],
    pub color: ColorBits,
    pub sdf_params: [F32Bits; 4],
    pub sdf_type: u32,
    pub sdf_feather: F32Bits,
    pub sdf_extra: [F32Bits; 2],
    pub transform_index: u32,
}

/// The size of a [`Vertex`] on the GPU, in bytes.
pub const VERTEX_BYTES: u64 = 68;

/// The kind of numbers in a vertex attribute.
#[derive(Clone, Copy, Debug, PartialEq, Eq, Structural)]
pub enum AttributeFormat {
    Float32,
    Float32x2,
    Float32x4,
    Uint32,
    Sint32x2,
}

impl AttributeFormat {
    /// The size of an attribute, in bytes.
    pub open spec fn spec_bytes(self) -> u64 {
        match self {
            AttributeFormat::Float32 => 4,
            AttributeFormat::Float32x2 => 8,
            AttributeFormat::Float32x4 => 16,
            AttributeFormat::Uint32 => 4,
            AttributeFormat::Sint32x2 => 8,
        }
    }
}

/// Where a vertex attribute lies and which shader location reads it.
#[derive(Clone, Copy, Debug, PartialEq, Eq, Structural)]
pub struct VertexAttribute {
    pub offset: u64,
    pub format: AttributeFormat,
    pub shader_location: u32,
}

/// One shape drawn as an instance of a quad, 104 bytes on the GPU.
#[derive(Clone, Copy, Debug)]
pub struct ShapeInstance {
    /// The quad: left, top, right, bottom.
    pub bounds: [F32Bits; 4],
    /// The part of the plane that the texture part is stretched over.
    pub uv_bounds: [F32Bits; 4],
    /// The part of the texture.
    pub uv_rect: [F32Bits; 4],
    pub color: ColorBits,
    pub sdf_params: [F32Bits; 4],
    pub sdf_extra: [F32Bits; 2],
    pub sdf_type: u32,
    pub sdf_feather: F32Bits,
    pub transform_index: u32,
}

/// The size of a [`ShapeInstance`] on the GPU, in bytes, with its padding.
pub const SHAPE_INSTANCE_BYTES: u64 = 104;

impl Vertex {
    /// A plain vertex at `(x, y)`: no texture coordinates, no shape, row 0.
    pub fn new(x: F32Bits, y: F32Bits, color: ColorBits) -> (v: Self)
        ensures
            v == (Vertex {
                position: [x, y],
                uv: [0, 0],
                color,
                sdf_params: [0, 0, 0, 0],
                sdf_type: 0,
                sdf_feather: 0,
                sdf_extra: [0, 0],
                transform_index: 0,
            }),
    {
        Vertex {
            position: [x, y],
            uv: [0, 0],
            color,
            sdf_params: [0, 0, 0, 0],
            sdf_type: 0,
            sdf_feather: 0,
            sdf_extra: [0, 0],
            transform_index: 0,
        }
    }

    /// A vertex with texture coordinates, in row 0.
    pub fn new_uv(x: F32Bits, y: F32Bits, u: F32Bits, v: F32Bits, color: ColorBits) -> (r: Self)
        ensures
            r == Vertex::spec_uv(x, y, u, v, color, 0),
    {
        Vertex::new_uv_xform(x, y, u, v, color, 0)
    }

    /// A vertex with texture coordinates and a transform row, without a shape.
    pub open spec fn spec_uv(
        x: F32Bits,
        y: F32Bits,
        u: F32Bits,
        v: F32Bits,
        color: ColorBits,
        transform_index: u32,
    ) -> Vertex {
        Vertex {
            position: [x, y],
            uv: [u, v],
            color,
            sdf_params: [0, 0, 0, 0],
            sdf_type: 0,
            sdf_feather: 0,
            sdf_extra: [0, 0],
            transform_index,
        }
    }

    /// A vertex with texture coordinates and a transform row.
    pub fn new_uv_xform(
        x: F32Bits,
        y: F32Bits,
        u: F32Bits,
        v: F32Bits,
        color: ColorBits,
        transform_index: u32,
    ) -> (r: Self)
        ensures
            r == Vertex::spec_uv(x, y, u, v, color, transform_index),
    {
        Vertex {
            position: [x, y],
            uv: [u, v],
            color,
            sdf_params: [0, 0, 0, 0],
            sdf_type: 0,
            sdf_feather: 0,
            sdf_extra: [0, 0],
            transform_index,
        }
    }

    /// The same vertex in another transform row.
    pub fn with_transform_index(self, idx: u32) -> (r: Self)
        ensures
            r == (Vertex { transform_index: idx, ..self }),
    {
        Vertex { transform_index: idx, ..self }
    }

    /// Where the attributes lie: position, texture coordinates, colour, shape
    /// parameters, shape type, feather, extra parameters, transform row. They
    /// fill the vertex without gaps.
    pub fn desc() -> (r: [VertexAttribute; 8])
        ensures
            forall|i: int| 0 <= i < 8 ==> (#[trigger] r@[i]).shader_location == i,
            r@[0].offset == 0,
            forall|i: int|
                0 <= i < 7 ==> #[trigger] r@[i + 1].offset == r@[i].offset
                    + r@[i].format.spec_bytes(),
            r@[7].offset + r@[7].format.spec_bytes() == VERTEX_BYTES,
            r@.map_values(|a: VertexAttribute| a.format) == seq![
                AttributeFormat::Float32x2,
                AttributeFormat::Float32x2,
                AttributeFormat::Float32x4,
                AttributeFormat::Float32x4,
                AttributeFormat::Uint32,
                AttributeFormat::Float32,
                AttributeFormat::Float32x2,
                AttributeFormat::Uint32,
            ],
    {
        let r = [
            VertexAttribute { offset: 0, format: AttributeFormat::Float32x2, shader_location: 0 },
            VertexAttribute { offset: 8, format: AttributeFormat::Float32x2, shader_location: 1 },
            VertexAttribute { offset: 16, format: AttributeFormat::Float32x4, shader_location: 2 },
            VertexAttribute { offset: 32, format: AttributeFormat::Float32x4, shader_location: 3 },
            VertexAttribute { offset: 48, format: AttributeFormat::Uint32, shader_location: 4 },
            VertexAttribute { offset: 52, format: AttributeFormat::Float32, shader_location: 5 },
            VertexAttribute { offset: 56, format: AttributeFormat::Float32x2, shader_location: 6 },
            VertexAttribute { offset: 64, format: AttributeFormat::Uint32, shader_location: 7 },
        ];
        assert(r@.map_values(|a: VertexAttribute| a.format) =~= seq![
            AttributeFormat::Float32x2,
            AttributeFormat::Float32x2,
            AttributeFormat::Float32x4,
            AttributeFormat::Float32x4,
            AttributeFormat::Uint32,
            AttributeFormat::Float32,
            AttributeFormat::Float32x2,
            AttributeFormat::Uint32,
        ]);
        r
    }
}

} // verus!
