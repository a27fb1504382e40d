//! Vertices, instances and glyphs as the words and bytes of GPU buffers.

use crate::glyph::{GlyphToRender, GLYPH_BYTES};
use crate::vertex::{ShapeInstance, Vertex, SHAPE_INSTANCE_BYTES, VERTEX_BYTES};
use vstd::prelude::*;

verus! {

// ---------------------------------------------------------------------------
// Bytes
// ---------------------------------------------------------------------------

/// Byte `k` of a word, the lowest first.
pub open spec fn byte_of(word: u32, k: int) -> int {
    if k == 0 {
        word as int % 256
    } else if k == 1 {
        (word as int / 256) % 256
    } else if k == 2 {
        (word as int / 65536) % 256
    } else {
        word as int / 16777216
    }
}

/// Whether `bytes` are those of `words`, each with its lowest byte first.
pub open spec fn lowest_first(words: Seq<u32>, bytes: Seq<u8>) -> bool {
    &&& bytes.len() == 4 * words.len()
    &&& forall|i: int, k: int|
        0 <= i < words.len() && 0 <= k < 4 ==> #[trigger] bytes[4 * i + k] == byte_of(words[i], k)
}

/// Whether `bytes` are those of `words`, each with its highest byte first.
pub open spec fn highest_first(words: Seq<u32>, bytes: Seq<u8>) -> bool {
    &&& bytes.len() == 4 * words.len()
    &&& forall|i: int, k: int|
        0 <= i < words.len() && 0 <= k < 4 ==> #[trigger] bytes[4 * i + k] == byte_of(
            words[i],
            3 - k,
        )
}

/// `bytemuck::cast_slice` from words to bytes: the memory of the words, which
/// is in the machine's byte order. Bytes may stand anywhere and four make a
/// word, so the cast never fails.
#[verifier::external_body]
pub(crate) fn words_as_bytes(words: &Vec<u32>) -> (r: Vec<u8>)
    ensures
        lowest_first(words@, r@) || highest_first(words@, r@),
{
    bytemuck::cast_slice::<u32, u8>(words.as_slice()).to_vec()
}

/// The bytes of some words, in the machine's byte order.
pub fn buffer_bytes(words: &Vec<u32>) -> (r: Vec<u8>)
    ensures
        r@.len() == 4 * words@.len(),
        lowest_first(words@, r@) || highest_first(words@, r@),
{
    words_as_bytes(words)
}

// ---------------------------------------------------------------------------
// Words
// ---------------------------------------------------------------------------

/// Some words, end to end.
pub open spec fn joined(records: Seq<Seq<u32>>) -> Seq<u32>
    decreases records.len(),
{
    if records.len() == 0 {
        seq![]
    } else {
        joined(records.drop_last()) + records.last()
    }
}

/// Law: records of the same size stand at multiples of that size.
pub proof fn lemma_records_are_evenly_spaced(records: Seq<Seq<u32>>, size: nat, i: int, k: int)
    requires
        forall|j: int| 0 <= j < records.len() ==> (#[trigger] records[j]).len() == size,
        0 <= i < records.len(),
        0 <= k < size,
    ensures
        joined(records).len() == records.len() * size,
        joined(records)[i * size + k] == records[i][k],
    decreases records.len(),
{
    lemma_joined_size(records, size);
    let rest = records.drop_last();
    lemma_joined_size(rest, size);
    let n = records.len() - 1;
    assert(records.len() * size == n * size + size) by (nonlinear_arith)
        requires
            records.len() == n + 1,
    ;
    if i < n {
        assert(rest[i] == records[i]);
        lemma_records_are_evenly_spaced(rest, size, i, k);
        assert(i * size + k < n * size) by (nonlinear_arith)
            requires
                0 <= i < n,
                0 <= k < size,
        ;
        assert(0 <= i * size) by (nonlinear_arith)
            requires
                0 <= i,
        ;
    }
}

proof fn lemma_joined_size(records: Seq<Seq<u32>>, size: nat)
    requires
        forall|j: int| 0 <= j < records.len() ==> (#[trigger] records[j]).len() == size,
    ensures
        joined(records).len() == records.len() * size,
    decreases records.len(),
{
    if records.len() > 0 {
        let rest = records.drop_last();
        assert forall|j: int| 0 <= j < rest.len() implies (#[trigger] rest[j]).len() == size by {
            assert(rest[j] == records[j]);
        }
        lemma_joined_size(rest, size);
        assert(rest.len() * size + size == records.len() * size) by (nonlinear_arith)
            requires
                records.len() == rest.len() + 1,
        ;
    } else {
        assert(0 * size == 0) by (nonlinear_arith);
    }
}

impl Vertex {
    /// A vertex as words.
    pub open spec fn words(self) -> Seq<u32> {
        self.position@ + self.uv@ + self.color@ + self.sdf_params@ + seq![
            self.sdf_type,
            self.sdf_feather,
        ] + self.sdf_extra@ + seq![self.transform_index]
    }
}

impl ShapeInstance {
    /// An instance as words; the last one is padding.
    pub open spec fn words(self) -> Seq<u32> {
        self.bounds@ + self.uv_bounds@ + self.uv_rect@ + self.color@ + self.sdf_params@
            + self.sdf_extra@ + seq![self.sdf_type, self.sdf_feather, self.transform_index, 0u32]
    }
}

/// Two numbers in one word, the first in its lower half.
pub open spec fn pair_word(a: u16, b: u16) -> u32 {
    (a + 65536 * b) as u32
}

impl GlyphToRender {
    /// A glyph as words.
    pub open spec fn words(self) -> Seq<u32> {
        seq![
            self.pos[0] as u32,
            self.pos[1] as u32,
            pair_word(self.dim[0], self.dim[1]),
            pair_word(self.uv[0], self.uv[1]),
            self.color,
            pair_word(self.content_type_with_srgb[0], self.content_type_with_srgb[1]),
            self.depth,
            self.transform_index,
        ] + self.base_uv_rect@
    }
}

/// The words of each vertex.
pub open spec fn vertex_records(vertices: Seq<Vertex>) -> Seq<Seq<u32>> {
    vertices.map_values(|v: Vertex| v.words())
}

/// The words of each instance.
pub open spec fn instance_records(instances: Seq<ShapeInstance>) -> Seq<Seq<u32>> {
    instances.map_values(|s: ShapeInstance| s.words())
}

/// The words of each glyph.
pub open spec fn glyph_records(glyphs: Seq<GlyphToRender>) -> Seq<Seq<u32>> {
    glyphs.map_values(|g: GlyphToRender| g.words())
}

/// Law: every record has as many words as its bytes say.
pub proof fn lemma_record_sizes(v: Vertex, s: ShapeInstance, g: GlyphToRender)
    ensures
        4 * v.words().len() == VERTEX_BYTES,
        4 * s.words().len() == SHAPE_INSTANCE_BYTES,
        4 * g.words().len() == GLYPH_BYTES,
{
}

fn push_pair(out: &mut Vec<u32>, a: u32, b: u32)
    ensures
        final(out)@ == old(out)@.push(a).push(b),
{
    out.push(a);
    out.push(b);
}

fn push_two(out: &mut Vec<u32>, words: [u32; 2])
    ensures
        final(out)@ == old(out)@ + words@,
{
    let ghost before = out@;
    push_pair(out, words[0], words[1]);
    assert(out@ =~= before + words@);
}

fn push_four(out: &mut Vec<u32>, words: [u32; 4])
    ensures
        final(out)@ == old(out)@ + words@,
{
    let ghost before = out@;
    push_pair(out, words[0], words[1]);
    push_pair(out, words[2], words[3]);
    assert(out@ =~= before + words@);
}

fn push_vertex(out: &mut Vec<u32>, v: &Vertex)
    ensures
        final(out)@ == old(out)@ + v.words(),
{
    let ghost before = out@;
    push_two(out, v.position);
    push_two(out, v.uv);
    push_four(out, v.color);
    push_four(out, v.sdf_params);
    push_pair(out, v.sdf_type, v.sdf_feather);
    push_two(out, v.sdf_extra);
    out.push(v.transform_index);
    assert(out@ =~= before + v.words());
}

fn push_instance(out: &mut Vec<u32>, s: &ShapeInstance)
    ensures
        final(out)@ == old(out)@ + s.words(),
{
    let ghost before = out@;
    push_four(out, s.bounds);
    push_four(out, s.uv_bounds);
    push_four(out, s.uv_rect);
    push_four(out, s.color);
    push_four(out, s.sdf_params);
    push_two(out, s.sdf_extra);
    push_pair(out, s.sdf_type, s.sdf_feather);
    push_pair(out, s.transform_index, 0);
    assert(out@ =~= before + s.words());
}

fn pair(a: u16, b: u16) -> (r: u32)
    ensures
        r == pair_word(a, b),
{
    a as u32 + 65536 * (b as u32)
}

fn push_glyph(out: &mut Vec<u32>, g: &GlyphToRender)
    ensures
        final(out)@ == old(out)@ + g.words(),
{
    let ghost before = out@;
    push_pair(out, g.pos[0] as u32, g.pos[1] as u32);
    push_pair(out, pair(g.dim[0], g.dim[1]), pair(g.uv[0], g.uv[1]));
    push_pair(out, g.color, pair(g.content_type_with_srgb[0], g.content_type_with_srgb[1]));
    push_pair(out, g.depth, g.transform_index);
    push_four(out, g.base_uv_rect);
    assert(out@ =~= before + g.words());
}

/// The words of a vertex buffer.
pub fn vertex_words(vertices: &Vec<Vertex>) -> (r: Vec<u32>)
    ensures
        r@ == joined(vertex_records(vertices@)),
{
    let ghost records = vertex_records(vertices@);
    let mut r: Vec<u32> = Vec::new();
    let mut i: usize = 0;
    assert(records.take(0) =~= seq![]);
    while i < vertices.len()
        invariant
            i <= vertices.len(),
            records == vertex_records(vertices@),
            r@ == joined(records.take(i as int)),
        decreases vertices.len() - i,
    {
        assert(records.take(i + 1).drop_last() =~= records.take(i as int));
        push_vertex(&mut r, &vertices[i]);
        i = i + 1;
    }
    assert(records.take(i as int) =~= records);
    r
}

/// The words of an instance buffer.
pub fn instance_words(instances: &Vec<ShapeInstance>) -> (r: Vec<u32>)
    ensures
        r@ == joined(instance_records(instances@)),
{
    let ghost records = instance_records(instances@);
    let mut r: Vec<u32> = Vec::new();
    let mut i: usize = 0;
    assert(records.take(0) =~= seq![]);
    while i < instances.len()
        invariant
            i <= instances.len(),
            records == instance_records(instances@),
            r@ == joined(records.take(i as int)),
        decreases instances.len() - i,
    {
        assert(records.take(i + 1).drop_last() =~= records.take(i as int));
        push_instance(&mut r, &instances[i]);
        i = i + 1;
    }
    assert(records.take(i as int) =~= records);
    r
}

/// The words of a glyph buffer.
pub fn glyph_words(glyphs: &Vec<GlyphToRender>) -> (r: Vec<u32>)
    ensures
        r@ == joined(glyph_records(glyphs@)),
{
    let ghost records = glyph_records(glyphs@);
    let mut r: Vec<u32> = Vec::new();
    let mut i: usize = 0;
    assert(records.take(0) =~= seq![]);
    while i < glyphs.len()
        invariant
            i <= glyphs.len(),
            records == glyph_records(glyphs@),
            r@ == joined(records.take(i as int)),
        decreases glyphs.len() - i,
    {
        assert(records.take(i + 1).drop_last() =~= records.take(i as int));
        push_glyph(&mut r, &glyphs[i]);
        i = i + 1;
    }
    assert(records.take(i as int) =~= records);
    r
}

} // verus!
