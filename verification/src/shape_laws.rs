//! What holds of everything that is drawn into a batch: its place, its colour, its
//! texture, and what is left as it was.

use vstd::prelude::*;
use crate::area::{Area, AreaModel};
use crate::batch;
use crate::batch::{
    line_chain_segments, white, BatchModel, DrawBatch, InstanceRecord, InstanceShape, SavedBrush,
    ShapeOverride, ShapeRoute, TextureSegment,
};
use crate::geometry::{Affine, Transform, UvRect};
use crate::inherit::InheritFromParent;
use crate::transform_table;
use crate::transform_table::{TransformModel, TransformTable};
use crate::vertex::{f32_eq, ColorBits, F32Bits, Vertex};

verus! {

// ---------------------------------------------------------------------------
// What stays
// ---------------------------------------------------------------------------

/// Whether two batches have drawn the same.
pub open spec fn drew_the_same(a: BatchModel, b: BatchModel) -> bool {
    &&& a.vertices == b.vertices
    &&& a.indices == b.indices
    &&& a.texts == b.texts
    &&& a.instances == b.instances
    &&& a.polygon_edges == b.polygon_edges
    &&& a.transforms == b.transforms
    &&& a.has_sdf == b.has_sdf
}

/// Whether two batches have the same runs of textures.
pub open spec fn same_runs(a: BatchModel, b: BatchModel) -> bool {
    &&& a.texture_segments == b.texture_segments
    &&& a.instance_texture_segments == b.instance_texture_segments
}

/// Whether two batches have the same brush, apart from its transform.
pub open spec fn same_brush(a: BatchModel, b: BatchModel) -> bool {
    &&& a.color == b.color
    &&& a.sdf_feather == b.sdf_feather
    &&& a.uv == b.uv
    &&& a.bind_group == b.bind_group
    &&& a.text_texture == b.text_texture
}

/// Whether two batches stand in the same way to others: children, clips, areas,
/// bounds and material.
pub open spec fn same_standing(a: BatchModel, b: BatchModel) -> bool {
    &&& a.children == b.children
    &&& a.clips_children == b.clips_children
    &&& a.inherit == b.inherit
    &&& a.area_include == b.area_include
    &&& a.area_exclude == b.area_exclude
    &&& a.bounds == b.bounds
    &&& a.scissor == b.scissor
    &&& a.text_clip == b.text_clip
    &&& a.custom_material == b.custom_material
    &&& a.dynamic_offsets == b.dynamic_offsets
}

/// Law: what is said of a batch is said of its parts, each of its own.
pub proof fn lemma_batch_is_its_parts(b: DrawBatch)
    ensures
        b@.vertices == b.vertices@,
        b@.indices == b.indices@,
        b@.texts == b.texts@,
        b@.bind_group == b.bind_group,
        b@.text_texture == b.text_texture,
        b@.texture_segments == b.texture_segments@,
        b@.instances == b.instances@,
        b@.instance_texture_segments == b.instance_texture_segments@,
        b@.transform == b.transform,
        b@.sdf_feather == b.sdf_feather,
        b@.color == b.color,
        b@.uv == b.uv,
        b@.polygon_edges == b.polygon_edges@,
        b@.transforms == b.transforms@,
        b@.has_sdf == b.has_sdf,
        b@.cached_transform_index == b.cached_transform_index,
        b@.children.len() == b.children@.len(),
        forall|i: int| 0 <= i < b.children@.len() ==> b@.children[i] == (#[trigger] b.children@[i])@,
        b@.clips_children == b.clips_children,
        b@.inherit == b.inherit,
        b@.area_include is Some <==> b.area_include is Some,
        b@.area_include is Some ==> b@.area_include->0 == b.area_include->0@,
        b@.area_exclude is Some <==> b.area_exclude is Some,
        b@.area_exclude is Some ==> b@.area_exclude->0 == b.area_exclude->0@,
        b@.bounds == b.bounds,
        b@.scissor == b.scissor,
        b@.text_clip == b.text_clip,
        b@.custom_material == b.custom_material,
        b@.dynamic_offsets == b.dynamic_offsets@,
{
    batch::lemma_models(b.children@, b.children@.len());
}

/// Law: a new batch, and one that was cleared, has drawn nothing and stands alone,
/// everywhere visible. Its brush is white, feathered by one, on the whole of the
/// white texture, and not moved; it is left out when it is off the screen.
pub proof fn lemma_new_batch_is_blank(b: DrawBatch)
    requires
        call_ensures(DrawBatch::new, (), b),
    ensures
        is_blank(b@),
{
}

/// Whether a batch is as a new one is.
pub open spec fn is_blank(b: BatchModel) -> bool {
    &&& b.vertices.len() == 0 && b.indices.len() == 0 && b.texts.len() == 0
    &&& b.instances.len() == 0 && b.polygon_edges.len() == 0 && b.children.len() == 0
    &&& b.texture_segments.len() == 0 && b.instance_texture_segments.len() == 0
    &&& b.dynamic_offsets.len() == 0
    &&& b.bind_group is None && b.text_texture is None && b.transform is None
    &&& b.cached_transform_index is None && b.area_include is None && b.area_exclude is None
    &&& b.scissor is None && b.text_clip is None && b.custom_material is None
    &&& b.bounds == Some(None::<crate::geometry::Rect>)
    &&& b.sdf_feather == Some(0x3f80_0000u32)
    &&& forall|k: int| 0 <= k < 4 ==> b.color@[k] == 0x3f80_0000
    &&& b.uv.u0 == 0 && b.uv.v0 == 0 && b.uv.u1 == 0x3f80_0000 && b.uv.v1 == 0x3f80_0000
    &&& !b.has_sdf && !b.clips_children
    &&& !b.inherit.transform && !b.inherit.color && !b.inherit.sdf_feather && !b.inherit.uv
    &&& b.inherit.clipped
    &&& b.transforms.rows.len() == 12
}

/// Law: a batch that was cleared is as a new one is.
pub proof fn lemma_cleared_batch_is_blank(b: &mut DrawBatch)
    requires
        call_ensures(DrawBatch::clear, (b,), ()),
    ensures
        is_blank(final(b)@),
{
}

/// Law: a copy of a batch is equal to it.
pub proof fn lemma_copy_is_equal(b: DrawBatch, r: DrawBatch)
    requires
        call_ensures(DrawBatch::clone_batch, (&b,), r),
    ensures
        drew_the_same(r@, b@),
        same_runs(r@, b@),
        same_brush(r@, b@),
        same_standing(r@, b@),
        r@.transform == b@.transform,
{
}

// ---------------------------------------------------------------------------
// Numbers
// ---------------------------------------------------------------------------

/// Law: floats compare equal if they have the same bits, unless they are not
/// numbers, or if both are a zero of either sign, and not else.
pub proof fn lemma_equal_floats(a: F32Bits, b: F32Bits, r: bool)
    requires
        call_ensures(f32_eq, (a, b), r),
    ensures
        a == b && a <= 0x7f80_0000 ==> r,
        a == b && 0x8000_0000 <= a <= 0xff80_0000 ==> r,
        (a == 0 || a == 0x8000_0000) && (b == 0 || b == 0x8000_0000) ==> r,
        0x7f80_0000 < a < 0x8000_0000 || 0xff80_0000 < a ==> !r,
        0x7f80_0000 < b < 0x8000_0000 || 0xff80_0000 < b ==> !r,
        a != b && a != 0 && a != 0x8000_0000 ==> !r,
        a != b && b != 0 && b != 0x8000_0000 ==> !r,
{
    lemma_without_sign(a);
    lemma_without_sign(b);
}

proof fn lemma_without_sign(a: u32)
    ensures
        a < 0x8000_0000 ==> a & 0x7fff_ffff == a,
        a >= 0x8000_0000 ==> a & 0x7fff_ffff == a - 0x8000_0000,
{
    assert(a < 0x8000_0000 ==> a & 0x7fff_ffff == a) by (bit_vector);
    assert(a >= 0x8000_0000 ==> a & 0x7fff_ffff == a - 0x8000_0000) by (bit_vector);
}

// ---------------------------------------------------------------------------
// Transform rows
// ---------------------------------------------------------------------------

/// Whether row `i` holds the columns `(a, c)`, `(b, d)` and `(tx, ty)` of a matrix,
/// each padded: the first two with zeros, the last with a one and a zero.
pub open spec fn row_holds(rows: Seq<F32Bits>, i: int, m: Affine) -> bool {
    &&& 0 <= i
    &&& 12 * i + 12 <= rows.len()
    &&& rows[12 * i] == m.a && rows[12 * i + 1] == m.c
    &&& rows[12 * i + 2] == 0 && rows[12 * i + 3] == 0
    &&& rows[12 * i + 4] == m.b && rows[12 * i + 5] == m.d
    &&& rows[12 * i + 6] == 0 && rows[12 * i + 7] == 0
    &&& rows[12 * i + 8] == m.tx && rows[12 * i + 9] == m.ty
    &&& rows[12 * i + 10] == 0x3f80_0000 && rows[12 * i + 11] == 0
}

/// Whether no matrix of a table but `m` itself has the key of `m`.
pub open spec fn key_is_free(t: TransformModel, m: Affine) -> bool {
    forall|i: int|
        0 <= i < t.rows.len() / 12 && transform_table::spec_transform_key(
            #[trigger] transform_table::matrix_at(t.rows, i),
        ) == transform_table::spec_transform_key(m) ==> transform_table::matrix_at(t.rows, i) == m
}

/// Law: a row of a table holds the matrix that is read from it, padded.
pub proof fn lemma_row_holds_its_matrix(t: TransformModel, i: int)
    requires
        t.wf(),
        0 <= i < t.rows.len() / 12,
    ensures
        row_holds(t.rows, i, transform_table::matrix_at(t.rows, i)),
{
    let m = transform_table::matrix_at(t.rows, i);
    let row = t.rows.subrange(12 * i, 12 * i + 12);
    assert(row == transform_table::row_of(m));
    assert(row[0] == t.rows[12 * i] && row[1] == t.rows[12 * i + 1] && row[2] == t.rows[12 * i + 2]
        && row[3] == t.rows[12 * i + 3] && row[4] == t.rows[12 * i + 4] && row[5] == t.rows[12 * i
        + 5]);
    assert(row[6] == t.rows[12 * i + 6] && row[7] == t.rows[12 * i + 7] && row[8] == t.rows[12 * i
        + 8] && row[9] == t.rows[12 * i + 9] && row[10] == t.rows[12 * i + 10] && row[11]
        == t.rows[12 * i + 11]);
}

/// Law: the matrix that is read from a row is the one that the row holds.
pub proof fn lemma_matrix_is_read_from_its_row(table: TransformTable, i: u32, m: Affine, r: Affine)
    requires
        call_ensures(TransformTable::matrix, (&table, i), r),
    ensures
        row_holds(table@.rows, i as int, m) ==> r == m,
        12 * i + 12 > table@.rows.len() ==> r.a == 0x3f80_0000 && r.d == 0x3f80_0000 && r.b == 0
            && r.c == 0 && r.tx == 0 && r.ty == 0,
{
}

/// Law: registering a matrix gives a row that holds it, keeps all rows there were,
/// and adds at most one.
pub proof fn lemma_registered_row_holds_matrix(
    table: &mut TransformTable,
    m: Affine,
    r: u32,
)
    requires
        table@.wf(),
        table@.rows.len() / 12 < u32::MAX,
        key_is_free(table@, m),
        call_ensures(TransformTable::register, (table, m), r),
    ensures
        row_holds(final(table)@.rows, r as int, m),
        old(table)@.rows.is_prefix_of(final(table)@.rows),
        final(table)@.rows.len() <= old(table)@.rows.len() + 12,
        r as int == old(table)@.rows.len() / 12 ==> final(table)@.rows.len() == old(table)@.rows.len() + 12,
        12 * r < old(table)@.rows.len() ==> final(table)@.rows == old(table)@.rows,
{
    transform_table::lemma_register_gives_row(table@, m);
    lemma_row_holds_its_matrix(table@.registered(m), r as int);
}

/// Law: a new table has one row, which holds the matrix that changes nothing.
pub proof fn lemma_new_table_holds_identity(table: TransformTable, n: usize, id: Affine)
    requires
        call_ensures(TransformTable::new, (), table),
        call_ensures(Affine::identity, (), id),
    ensures
        call_ensures(TransformTable::len, (&table,), n) ==> n == 1,
        row_holds(table@.rows, 0, id),
        id.a == 0x3f80_0000 && id.d == 0x3f80_0000 && id.b == 0 && id.c == 0 && id.tx == 0 && id.ty
            == 0,
{
    transform_table::lemma_register_in_seeded(id);
    assert(transform_table::matrix_at(table@.rows, 0) == id);
    lemma_row_holds_its_matrix(table@, 0);
}

// ---------------------------------------------------------------------------
// The brush
// ---------------------------------------------------------------------------

/// Law: setting the brush colour sets nothing else.
pub proof fn lemma_brush_color_is_set(b: &mut DrawBatch, color: ColorBits)
    requires
        call_ensures(DrawBatch::set_color, (b, color), ()),
    ensures
        final(b)@.color == color,
        drew_the_same(final(b)@, old(b)@),
        same_runs(final(b)@, old(b)@),
        same_standing(final(b)@, old(b)@),
        final(b)@.sdf_feather == old(b)@.sdf_feather,
        final(b)@.uv == old(b)@.uv,
        final(b)@.bind_group == old(b)@.bind_group,
        final(b)@.transform == old(b)@.transform,
        final(b)@.cached_transform_index == old(b)@.cached_transform_index,
{
}

/// The transform of a brush: that which was set, or one that changes nothing.
pub open spec fn moved_by(b: BatchModel) -> Transform {
    match b.transform {
        Some(t) => t,
        None => Transform {
            a: 0x3f80_0000,
            b: 0,
            c: 0,
            d: 0x3f80_0000,
            x: 0,
            y: 0,
            px: 0,
            py: 0,
        },
    }
}

/// Whether only the brush transform was changed, so that its row has to be found
/// anew.
pub open spec fn only_moved(after: BatchModel, before: BatchModel) -> bool {
    &&& drew_the_same(after, before)
    &&& same_runs(after, before)
    &&& same_brush(after, before)
    &&& same_standing(after, before)
    &&& after.cached_transform_index is None
}

/// Law: the brush is moved to where it is put, and not turned or scaled by that.
pub proof fn lemma_brush_is_put(b: &mut DrawBatch, x: F32Bits, y: F32Bits)
    requires
        call_ensures(DrawBatch::set_position, (b, x, y), ()),
    ensures
        only_moved(final(b)@, old(b)@),
        ({
            let (t, was) = (moved_by(final(b)@), moved_by(old(b)@));
            &&& t.x == x && t.y == y
            &&& t.a == was.a && t.b == was.b && t.c == was.c && t.d == was.d
            &&& t.px == was.px && t.py == was.py
        }),
        final(b)@.transform is Some,
{
}

/// Law: the centre of turning is put where it is wanted, and nothing else changes.
pub proof fn lemma_brush_center_is_put(b: &mut DrawBatch, px: F32Bits, py: F32Bits)
    requires
        call_ensures(DrawBatch::set_pivot, (b, px, py), ()),
    ensures
        only_moved(final(b)@, old(b)@),
        ({
            let (t, was) = (moved_by(final(b)@), moved_by(old(b)@));
            &&& t.px == px && t.py == py
            &&& t.a == was.a && t.b == was.b && t.c == was.c && t.d == was.d
            &&& t.x == was.x && t.y == was.y
        }),
        final(b)@.transform is Some,
{
}

/// Law: the brush gets the matrix that it is given, about the origin.
pub proof fn lemma_brush_matrix_is_set(
    b: &mut DrawBatch,
    m: Affine,
)
    requires
        call_ensures(DrawBatch::set_matrix, (b, m.a, m.b, m.c, m.d, m.tx, m.ty), ()),
    ensures
        only_moved(final(b)@, old(b)@),
        ({
            let t = moved_by(final(b)@);
            &&& t.a == m.a && t.b == m.b && t.c == m.c && t.d == m.d && t.x == m.tx && t.y == m.ty
            &&& t.px == 0 && t.py == 0
        }),
        final(b)@.transform is Some,
{
}

/// Law: the brush gets the transform that it is given.
pub proof fn lemma_brush_transform_is_set(b: &mut DrawBatch, t: Transform)
    requires
        call_ensures(DrawBatch::set_transform, (b, t), ()),
    ensures
        only_moved(final(b)@, old(b)@),
        final(b)@.transform == Some(t),
{
}

/// Law: a brush whose transform was taken off is not moved.
pub proof fn lemma_brush_transform_is_cleared(b: &mut DrawBatch)
    requires
        call_ensures(DrawBatch::clear_transform, (b,), ()),
    ensures
        only_moved(final(b)@, old(b)@),
        final(b)@.transform is None,
{
}

/// Law: the constructors of transforms give the parts that they are given.
pub proof fn lemma_transforms_have_their_parts(m: Affine, t: Transform)
    ensures
        call_ensures(Transform::translation, (m.tx, m.ty), t) ==> t.x == m.tx && t.y == m.ty && t.a
            == 0x3f80_0000 && t.d == 0x3f80_0000 && t.b == 0 && t.c == 0 && t.px == 0 && t.py == 0,
        call_ensures(Transform::matrix, (m.a, m.b, m.c, m.d, m.tx, m.ty), t) ==> t.a == m.a && t.b
            == m.b && t.c == m.c && t.d == m.d && t.x == m.tx && t.y == m.ty && t.px == 0 && t.py
            == 0,
        call_ensures(Transform::identity, (), t) ==> t.a == 0x3f80_0000 && t.d == 0x3f80_0000 && t.b
            == 0 && t.c == 0 && t.x == 0 && t.y == 0 && t.px == 0 && t.py == 0,
{
}

/// Law: the texture part is set corner by corner, and cleared to the whole.
pub proof fn lemma_texture_part_is_set(
    b: &mut DrawBatch,
    u0: F32Bits,
    v0: F32Bits,
    u1: F32Bits,
    v1: F32Bits,
)
    requires
        call_ensures(DrawBatch::set_uv, (b, u0, v0, u1, v1), ()),
    ensures
        final(b)@.uv.u0 == u0 && final(b)@.uv.v0 == v0 && final(b)@.uv.u1 == u1 && final(b)@.uv.v1
            == v1,
        drew_the_same(final(b)@, old(b)@),
        same_runs(final(b)@, old(b)@),
        same_standing(final(b)@, old(b)@),
        final(b)@.color == old(b)@.color,
        final(b)@.sdf_feather == old(b)@.sdf_feather,
        final(b)@.transform == old(b)@.transform,
{
}

/// Law: a texture part that is cleared is the whole texture.
pub proof fn lemma_texture_part_is_cleared(b: &mut DrawBatch)
    requires
        call_ensures(DrawBatch::clear_uv, (b,), ()),
    ensures
        final(b)@.uv.u0 == 0 && final(b)@.uv.v0 == 0 && final(b)@.uv.u1 == 0x3f80_0000 && final(b)@.uv.v1 == 0x3f80_0000,
        drew_the_same(final(b)@, old(b)@),
        final(b)@.color == old(b)@.color,
{
}

/// Law: the corners of a texture part go round it from the left top: next corners
/// share one coordinate, and opposite ones none that differ.
pub proof fn lemma_texture_corners_go_round(uv: UvRect, r: [(F32Bits, F32Bits); 4])
    requires
        call_ensures(UvRect::corners, (&uv,), r),
    ensures
        r@[0] == (uv.u0, uv.v0),
        r@[2] == (uv.u1, uv.v1),
        r@[1].1 == r@[0].1 && r@[1].0 == r@[2].0,
        r@[3].0 == r@[0].0 && r@[3].1 == r@[2].1,
{
}

// ---------------------------------------------------------------------------
// Vertices and texts
// ---------------------------------------------------------------------------

/// Whether what was drawn last is in the row of the brush: the one that was
/// remembered, or one that holds the brush's matrix.
pub open spec fn in_brush_row(
    before: BatchModel,
    after: BatchModel,
    row: u32,
    current: Affine,
) -> bool {
    &&& after.cached_transform_index == Some(row)
    &&& before.cached_transform_index is Some ==> before.cached_transform_index == Some(row)
        && after.transforms == before.transforms
    &&& before.cached_transform_index is None ==> row_holds(
        after.transforms.rows,
        row as int,
        current,
    ) && before.transforms.rows.is_prefix_of(after.transforms.rows)
}

proof fn lemma_brush_row(b: BatchModel, current: Affine)
    requires
        b.own_wf(),
        b.room_for_brush(),
        b.cached_transform_index is None ==> key_is_free(b.transforms, current),
    ensures
        in_brush_row(b, b.with_brush_slot(current), b.brush_slot(current), current),
{
    if b.cached_transform_index is None {
        transform_table::lemma_register_gives_row(b.transforms, current);
        lemma_row_holds_its_matrix(
            b.transforms.registered(current),
            b.transforms.slot(current) as int,
        );
        assert(b.transforms.rows.is_prefix_of(b.transforms.registered(current).rows));
    }
}

/// Law: a vertex is added behind those there are, where it is put, with its
/// texture coordinates and its colour, in the row of the brush, and without a
/// shape. Nothing else is drawn.
pub proof fn lemma_vertex_is_added(
    b: &mut DrawBatch,
    x: F32Bits,
    y: F32Bits,
    u: F32Bits,
    v: F32Bits,
    color: ColorBits,
    current: Affine,
)
    requires
        b@.own_wf(),
        b@.room_for_brush(),
        b@.cached_transform_index is None ==> key_is_free(b@.transforms, current),
        call_ensures(DrawBatch::push_vertex_uv, (b, x, y, u, v, color, current), ()),
    ensures
        final(b)@.vertices.len() == old(b)@.vertices.len() + 1,
        old(b)@.vertices.is_prefix_of(final(b)@.vertices),
        ({
            let n = final(b)@.vertices.last();
            &&& n.position@[0] == x && n.position@[1] == y
            &&& n.uv@[0] == u && n.uv@[1] == v
            &&& n.color == color
            &&& n.sdf_type == 0 && n.sdf_feather == 0
            &&& n.sdf_extra@[0] == 0 && n.sdf_extra@[1] == 0
            &&& in_brush_row(old(b)@, final(b)@, n.transform_index, current)
        }),
        final(b)@.indices == old(b)@.indices,
        final(b)@.instances == old(b)@.instances,
        final(b)@.texts == old(b)@.texts,
        final(b)@.polygon_edges == old(b)@.polygon_edges,
        final(b)@.has_sdf == old(b)@.has_sdf,
        same_brush(final(b)@, old(b)@),
        same_standing(final(b)@, old(b)@),
{
    lemma_brush_row(b@, current);
}

/// Law: a plain vertex is one with the texture coordinates of the texture's corner.
pub proof fn lemma_plain_vertex_is_added(
    b: &mut DrawBatch,
    x: F32Bits,
    y: F32Bits,
    color: ColorBits,
    current: Affine,
)
    requires
        b@.own_wf(),
        b@.room_for_brush(),
        b@.cached_transform_index is None ==> key_is_free(b@.transforms, current),
        call_ensures(DrawBatch::push_vertex, (b, x, y, color, current), ()),
    ensures
        final(b)@.vertices.len() == old(b)@.vertices.len() + 1,
        old(b)@.vertices.is_prefix_of(final(b)@.vertices),
        ({
            let n = final(b)@.vertices.last();
            &&& n.position@[0] == x && n.position@[1] == y
            &&& n.uv@[0] == 0 && n.uv@[1] == 0
            &&& n.color == color
            &&& n.sdf_type == 0 && n.sdf_feather == 0
            &&& n.sdf_extra@[0] == 0 && n.sdf_extra@[1] == 0
            &&& in_brush_row(old(b)@, final(b)@, n.transform_index, current)
        }),
        final(b)@.indices == old(b)@.indices,
        final(b)@.instances == old(b)@.instances,
        final(b)@.texts == old(b)@.texts,
{
    lemma_brush_row(b@, current);
}

/// Law: a vertex of a distance field is one with the shape that it is given, and
/// the batch knows that it has such shapes.
pub proof fn lemma_sdf_vertex_is_added(
    b: &mut DrawBatch,
    x: F32Bits,
    y: F32Bits,
    u: F32Bits,
    v: F32Bits,
    color: ColorBits,
    params: [F32Bits; 4],
    ty: u32,
    feather: F32Bits,
    current: Affine,
)
    requires
        b@.own_wf(),
        b@.room_for_brush(),
        b@.cached_transform_index is None ==> key_is_free(b@.transforms, current),
        call_ensures(
            DrawBatch::push_sdf_vertex,
            (b, x, y, u, v, color, params, ty, feather, current),
            (),
        ),
    ensures
        final(b)@.vertices.len() == old(b)@.vertices.len() + 1,
        old(b)@.vertices.is_prefix_of(final(b)@.vertices),
        ({
            let n = final(b)@.vertices.last();
            &&& n.position@[0] == x && n.position@[1] == y
            &&& n.uv@[0] == u && n.uv@[1] == v
            &&& n.color == color
            &&& n.sdf_type == ty && n.sdf_feather == feather && n.sdf_params == params
            &&& n.sdf_extra@[0] == 0 && n.sdf_extra@[1] == 0
            &&& in_brush_row(old(b)@, final(b)@, n.transform_index, current)
        }),
        final(b)@.has_sdf,
        final(b)@.indices == old(b)@.indices,
        final(b)@.instances == old(b)@.instances,
        final(b)@.texts == old(b)@.texts,
{
    lemma_brush_row(b@, current);
}

/// Law: a text is added behind those there are, in the row of the brush.
pub proof fn lemma_text_is_added(b: &mut DrawBatch, id: u32, current: Affine)
    requires
        b@.own_wf(),
        b@.room_for_brush(),
        b@.cached_transform_index is None ==> key_is_free(b@.transforms, current),
        call_ensures(DrawBatch::push_text, (b, id, current), ()),
    ensures
        final(b)@.texts.len() == old(b)@.texts.len() + 1,
        old(b)@.texts.is_prefix_of(final(b)@.texts),
        final(b)@.texts.last().id == id,
        in_brush_row(old(b)@, final(b)@, final(b)@.texts.last().transform_index, current),
        final(b)@.vertices == old(b)@.vertices,
        final(b)@.indices == old(b)@.indices,
        final(b)@.instances == old(b)@.instances,
        same_brush(final(b)@, old(b)@),
        same_standing(final(b)@, old(b)@),
{
    lemma_brush_row(b@, current);
}

/// Law: the constructors of vertices put what they are given where it belongs.
pub proof fn lemma_vertices_have_their_parts(
    x: F32Bits,
    y: F32Bits,
    u: F32Bits,
    v: F32Bits,
    color: ColorBits,
    row: u32,
    w: Vertex,
    r: Vertex,
)
    ensures
        call_ensures(Vertex::new_uv_xform, (x, y, u, v, color, row), r) ==> r.position@[0] == x
            && r.position@[1] == y && r.uv@[0] == u && r.uv@[1] == v && r.color == color
            && r.transform_index == row && r.sdf_type == 0,
        call_ensures(Vertex::new_uv, (x, y, u, v, color), r) ==> r.position@[0] == x
            && r.position@[1] == y && r.uv@[0] == u && r.uv@[1] == v && r.color == color
            && r.transform_index == 0 && r.sdf_type == 0,
        call_ensures(Vertex::new, (x, y, color), r) ==> r.position@[0] == x && r.position@[1] == y
            && r.uv@[0] == 0 && r.uv@[1] == 0 && r.color == color && r.transform_index == 0
            && r.sdf_type == 0,
        call_ensures(Vertex::with_transform_index, (w, row), r) ==> r.transform_index == row
            && r.position == w.position && r.uv == w.uv && r.color == w.color && r.sdf_params
            == w.sdf_params && r.sdf_type == w.sdf_type && r.sdf_feather == w.sdf_feather
            && r.sdf_extra == w.sdf_extra,
{
}

// ---------------------------------------------------------------------------
// Instances
// ---------------------------------------------------------------------------

/// Law: a shape that is added as an instance has the colour that it was given, or
/// that of the brush if it was given none; the feather and the texture part of the
/// brush; its own bounds, parameters and type; and a row that holds its place. It
/// comes behind those there are, and nothing else is drawn.
pub proof fn lemma_instance_is_added_as_given(
    b: &mut DrawBatch,
    shape: InstanceShape,
    color: Option<ColorBits>,
    place: Affine,
    r: bool,
)
    requires
        b@.own_wf(),
        b@.transforms.count() < u32::MAX,
        key_is_free(b@.transforms, place),
        call_ensures(DrawBatch::push_sdf_instance, (b, shape, color, place), r),
    ensures
        old(b)@.instances.is_prefix_of(final(b)@.instances),
        final(b)@.instances.len() <= old(b)@.instances.len() + 1,
        final(b)@.instances.len() == old(b)@.instances.len() + 1 ==> {
            let n = final(b)@.instances.last();
            &&& color matches Some(c) ==> n.shape.color == c
            &&& color is None ==> n.shape.color == old(b)@.color
            &&& Some(n.shape.sdf_feather) == old(b)@.sdf_feather
            &&& n.shape.bounds == shape.bounds && n.shape.uv_bounds == shape.uv_bounds
            &&& n.shape.sdf_params == shape.sdf_params && n.shape.sdf_extra == shape.sdf_extra
            &&& n.shape.sdf_type == shape.sdf_type && n.corner_uv == shape.corner_uv
            &&& n.shape.uv_rect@[0] == old(b)@.uv.u0 && n.shape.uv_rect@[1] == old(b)@.uv.v0
            &&& n.shape.uv_rect@[2] == old(b)@.uv.u1 && n.shape.uv_rect@[3] == old(b)@.uv.v1
            &&& row_holds(final(b)@.transforms.rows, n.shape.transform_index as int, place)
            &&& final(b)@.has_sdf
        },
        old(b)@.transforms.rows.is_prefix_of(final(b)@.transforms.rows),
        final(b)@.instances.len() == old(b)@.instances.len() ==> final(b)@ == old(b)@,
        final(b)@.vertices == old(b)@.vertices,
        final(b)@.indices == old(b)@.indices,
        final(b)@.texts == old(b)@.texts,
        final(b)@.polygon_edges == old(b)@.polygon_edges,
        final(b)@.transform == old(b)@.transform,
        final(b)@.cached_transform_index == old(b)@.cached_transform_index,
        same_brush(final(b)@, old(b)@),
        same_runs(final(b)@, old(b)@),
        same_standing(final(b)@, old(b)@),
{
    let t = b@.transforms;
    transform_table::lemma_register_gives_row(t, place);
    lemma_row_holds_its_matrix(t.registered(place), t.slot(place) as int);
    assert(t.rows.is_prefix_of(t.registered(place).rows));
    assert(b@.instances.is_prefix_of(b@.with_instance(shape, color, place).instances));
}

/// The opacity that a shape is drawn with.
pub open spec fn opacity(b: BatchModel, color: Option<ColorBits>) -> F32Bits {
    match color {
        Some(c) => c@[3],
        None => b.color@[3],
    }
}

/// Law: a shape becomes an instance exactly if the batch has a feather and no
/// material, and the shape can be seen: it is not fully transparent, and has a
/// width and a height. What cannot be an instance is said to be none.
pub proof fn lemma_which_shapes_are_instances(
    b: &mut DrawBatch,
    shape: InstanceShape,
    color: Option<ColorBits>,
    place: Affine,
    r: bool,
    clear: bool,
    thin: bool,
    flat: bool,
)
    requires
        b@.own_wf(),
        b@.transforms.count() < u32::MAX,
        call_ensures(DrawBatch::push_sdf_instance, (b, shape, color, place), r),
        call_ensures(f32_eq, (opacity(b@, color), 0), clear),
        call_ensures(f32_eq, (shape.bounds@[0], shape.bounds@[2]), thin),
        call_ensures(f32_eq, (shape.bounds@[1], shape.bounds@[3]), flat),
    ensures
        r <==> old(b)@.sdf_feather is Some && old(b)@.custom_material is None,
        final(b)@.instances.len() == old(b)@.instances.len() + 1 <==> r && !clear && !thin && !flat,
{
}

/// Law: the edges of a shape come behind those there are, and the shape is then
/// added as any other. With too few edges, or where there are no instances, nothing
/// is added.
pub proof fn lemma_edges_come_with_their_shape(
    b: &mut DrawBatch,
    edges: Vec<F32Bits>,
    least: usize,
    shape: InstanceShape,
    color: Option<ColorBits>,
    place: Affine,
    r: bool,
    first: usize,
)
    requires
        b@.own_wf(),
        b@.transforms.count() < u32::MAX,
        key_is_free(b@.transforms, place),
        call_ensures(DrawBatch::push_edge_instance, (b, &edges, least, shape, color, place), r),
        call_ensures(DrawBatch::next_edge, (&*old(b),), first),
    ensures
        first == old(b)@.polygon_edges.len() / 4,
        old(b)@.polygon_edges.is_prefix_of(final(b)@.polygon_edges),
        old(b)@.instances.is_prefix_of(final(b)@.instances),
        edges@.len() / 4 < least ==> r && final(b)@ == old(b)@,
        !r ==> final(b)@ == old(b)@,
        edges@.len() / 4 >= least ==> (r <==> old(b)@.sdf_feather is Some && old(b)@.custom_material is None),
        edges@.len() / 4 >= least && r ==> edges@.is_suffix_of(final(b)@.polygon_edges) && final(b)@.polygon_edges.len() == old(b)@.polygon_edges.len() + edges@.len(),
        final(b)@.instances.len() == old(b)@.instances.len() + 1 ==> {
            let n = final(b)@.instances.last();
            &&& color matches Some(c) ==> n.shape.color == c
            &&& color is None ==> n.shape.color == old(b)@.color
            &&& n.shape.sdf_params == shape.sdf_params && n.shape.sdf_type == shape.sdf_type
            &&& n.shape.bounds == shape.bounds
            &&& row_holds(final(b)@.transforms.rows, n.shape.transform_index as int, place)
        },
        final(b)@.vertices == old(b)@.vertices,
        final(b)@.texts == old(b)@.texts,
        same_brush(final(b)@, old(b)@),
{
    let t = b@.transforms;
    transform_table::lemma_register_gives_row(t, place);
    lemma_row_holds_its_matrix(t.registered(place), t.slot(place) as int);
    assert(b@.instances.is_prefix_of(b@.with_instance(shape, color, place).instances));
}

/// Law: a polygon is drawn as an instance only with three corners or more, and a
/// chain of lines only with two points or more and some thickness; what is fully
/// transparent is skipped; where there are no instances all is meshes.
pub proof fn lemma_routes_of_shapes(
    b: DrawBatch,
    points: usize,
    thickness: F32Bits,
    color: Option<ColorBits>,
    clear: bool,
    hairline: bool,
    polygon: ShapeRoute,
    chain: ShapeRoute,
)
    requires
        call_ensures(f32_eq, (opacity(b@, color), 0), clear),
        call_ensures(f32_eq, (thickness, 0), hairline),
        call_ensures(DrawBatch::polygon_route, (&b, points, color), polygon),
        call_ensures(DrawBatch::line_chain_route, (&b, points, thickness, color), chain),
    ensures
        polygon == ShapeRoute::Mesh <==> b@.sdf_feather is None || b@.custom_material is Some
            || points < 3,
        polygon == ShapeRoute::Skip ==> clear,
        polygon == ShapeRoute::Instance ==> !clear,
        chain == ShapeRoute::Mesh <==> b@.sdf_feather is None || b@.custom_material is Some
            || points < 2 || hairline,
        chain == ShapeRoute::Skip ==> clear,
        chain == ShapeRoute::Instance ==> !clear,
{
}

/// Law: the lines of a chain follow each other: each begins where the one before
/// ended. An open chain goes from the first point to the last, a closed one comes
/// back to where it began; a chain of lines has one line less than it has points.
pub proof fn lemma_chain_is_connected(points: usize, closed: bool, r: Vec<(usize, usize)>)
    requires
        points >= 2,
        call_ensures(line_chain_segments, (points, closed), r),
    ensures
        r@.len() == points - 1,
        r@[0].0 == 0,
        forall|i: int| 0 <= i < r@.len() - 1 ==> (#[trigger] r@[i]).1 == r@[i + 1].0,
        forall|i: int| 0 <= i < r@.len() ==> (#[trigger] r@[i]).0 == i,
        !closed ==> r@.last().1 == points - 1,
        closed ==> r@.last().1 == 0,
{
}

// ---------------------------------------------------------------------------
// Quads
// ---------------------------------------------------------------------------

/// Whether four vertices are the corners of a box, taken round from its left top.
pub open spec fn goes_round(
    p: Seq<F32Bits>,
    q: Seq<F32Bits>,
    r: Seq<F32Bits>,
    s: Seq<F32Bits>,
    bounds: [F32Bits; 4],
) -> bool {
    &&& p[0] == bounds@[0] && p[1] == bounds@[1]
    &&& r[0] == bounds@[2] && r[1] == bounds@[3]
    &&& q[1] == p[1] && q[0] == r[0]
    &&& s[0] == p[0] && s[1] == r[1]
}

/// Law: the four vertices that stand for an instance are the corners of its
/// bounds, taken round; each has its texture coordinates, and the colour, shape and
/// row of the instance.
pub proof fn lemma_quad_is_the_whole_box(instances: Seq<InstanceRecord>, shift: int, i: int)
    requires
        0 <= i < instances.len(),
    ensures
        batch::quads(instances, shift).len() == 4 * instances.len(),
        ({
            let v = batch::quads(instances, shift);
            goes_round(
                v[4 * i].position@,
                v[4 * i + 1].position@,
                v[4 * i + 2].position@,
                v[4 * i + 3].position@,
                instances[i].shape.bounds,
            )
        }),
        forall|k: int|
            0 <= k < 4 ==> {
                let v = #[trigger] batch::quads(instances, shift)[4 * i + k];
                let s = instances[i].shape;
                &&& v.uv@[0] == instances[i].corner_uv@[2 * k]
                &&& v.uv@[1] == instances[i].corner_uv@[2 * k + 1]
                &&& v.color == s.color && v.sdf_params == s.sdf_params && v.sdf_type == s.sdf_type
                &&& v.sdf_feather == s.sdf_feather && v.sdf_extra == s.sdf_extra
                &&& 0 <= s.transform_index + shift <= u32::MAX ==> v.transform_index
                    == s.transform_index + shift
            },
    decreases instances.len(),
{
    batch::lemma_quads_len(instances, shift, 0);
    batch::lemma_quads_len(instances.drop_last(), shift, 0);
    let all = batch::quads(instances, shift);
    let rest = batch::quads(instances.drop_last(), shift);
    if i < instances.len() - 1 {
        lemma_quad_is_the_whole_box(instances.drop_last(), shift, i);
        assert(forall|k: int| 0 <= k < 4 ==> #[trigger] all[4 * i + k] == rest[4 * i + k]);
        assert(all[4 * i + 0] == rest[4 * i + 0]);
    } else {
        let q = batch::quad(instances[i], shift);
        assert(all[4 * i + 0] == q[0] && all[4 * i + 1] == q[1] && all[4 * i + 2] == q[2] && all[4
            * i + 3] == q[3]);
        assert forall|k: int| 0 <= k < 4 implies {
            let v = #[trigger] all[4 * i + k];
            let s = instances[i].shape;
            &&& v.uv@[0] == instances[i].corner_uv@[2 * k]
            &&& v.uv@[1] == instances[i].corner_uv@[2 * k + 1]
            &&& v.color == s.color && v.sdf_params == s.sdf_params && v.sdf_type == s.sdf_type
            &&& v.sdf_feather == s.sdf_feather && v.sdf_extra == s.sdf_extra
            &&& 0 <= s.transform_index + shift <= u32::MAX ==> v.transform_index
                == s.transform_index + shift
        } by {
            assert(k == 0 || k == 1 || k == 2 || k == 3);
        }
    }
}

/// Law: the two triangles of each quad share its diagonal from the first corner to
/// the third, and have the second and the fourth corner on either side of it.
pub proof fn lemma_quad_triangles_share_diagonal(n: nat, base: int, i: int)
    requires
        0 <= i < n,
        0 <= base,
        base + 4 * n <= u32::MAX,
    ensures
        batch::quads_triangles(n, base).len() == 6 * n,
        ({
            let t = batch::quads_triangles(n, base);
            let first = base + 4 * i;
            &&& t[6 * i] == first && t[6 * i + 1] == first + 1 && t[6 * i + 2] == first + 2
            &&& t[6 * i + 3] == first && t[6 * i + 4] == first + 2 && t[6 * i + 5] == first + 3
        }),
    decreases n,
{
    lemma_quad_triangle_count(n, base);
    lemma_quad_triangle_count((n - 1) as nat, base);
    let t = batch::quads_triangles(n, base);
    let rest = batch::quads_triangles((n - 1) as nat, base);
    if i < n - 1 {
        lemma_quad_triangles_share_diagonal((n - 1) as nat, base, i);
        assert(forall|k: int| 0 <= k < 6 ==> #[trigger] t[6 * i + k] == rest[6 * i + k]);
        assert(t[6 * i + 0] == rest[6 * i + 0]);
    } else {
        let q = batch::quad_triangles(base + 4 * (n - 1));
        assert(forall|k: int| 0 <= k < 6 ==> #[trigger] t[6 * i + k] == q[k]);
        assert(t[6 * i + 0] == q[0] && t[6 * i + 1] == q[1] && t[6 * i + 2] == q[2]);
        assert(t[6 * i + 3] == q[3] && t[6 * i + 4] == q[4] && t[6 * i + 5] == q[5]);
    }
}

proof fn lemma_quad_triangle_count(n: nat, base: int)
    ensures
        batch::quads_triangles(n, base).len() == 6 * n,
    decreases n,
{
    if n > 0 {
        lemma_quad_triangle_count((n - 1) as nat, base);
    }
}

/// Law: the area of a batch is made of its mesh, vertex by vertex and triangle by
/// triangle, and behind that of the whole box of each instance, in its own row; it
/// is drawn as the batch is.
pub proof fn lemma_area_is_made_of_shapes(b: DrawBatch, r: Area, i: int)
    requires
        b@.vertices.len() + 4 * b@.instances.len() <= u32::MAX,
        call_ensures(DrawBatch::to_area, (&b,), r),
    ensures
        r@ is Empty <==> b@.instances.len() == 0 && (b@.vertices.len() == 0 || b@.indices.len()
            == 0),
        r@ is Empty || r@ is Geom,
        r@ matches AreaModel::Geom(g) ==> {
            &&& b@.vertices.is_prefix_of(g.vertices)
            &&& b@.indices.is_prefix_of(g.indices)
            &&& g.vertices.len() == b@.vertices.len() + 4 * b@.instances.len()
            &&& g.indices.len() == b@.indices.len() + 6 * b@.instances.len()
            &&& g.transform_table == b@.transforms.rows
            &&& g.polygon_edges == b@.polygon_edges
            &&& g.has_sdf == b@.has_sdf
            &&& g.sdf_feather == b@.sdf_feather
            &&& 0 <= i < b@.instances.len() ==> {
                let n = b@.vertices.len() as int;
                let at = n + 4 * i;
                let t = b@.indices.len() + 6 * i;
                let s = b@.instances[i].shape;
                &&& goes_round(
                    g.vertices[at].position@,
                    g.vertices[at + 1].position@,
                    g.vertices[at + 2].position@,
                    g.vertices[at + 3].position@,
                    s.bounds,
                )
                &&& g.indices[t] == at && g.indices[t + 1] == at + 1 && g.indices[t + 2] == at + 2
                &&& g.indices[t + 3] == at && g.indices[t + 4] == at + 2 && g.indices[t + 5] == at
                    + 3
                &&& g.vertices[at].transform_index == s.transform_index && g.vertices[at
                    + 2].transform_index == s.transform_index
                &&& g.vertices[at].sdf_type == s.sdf_type && g.vertices[at + 1].sdf_params
                    == s.sdf_params && g.vertices[at + 3].sdf_feather == s.sdf_feather
            }
        },
{
    let n = b@.vertices.len() as int;
    batch::lemma_quads_len(b@.instances, 0, n);
    if 0 <= i < b@.instances.len() {
        lemma_quad_is_the_whole_box(b@.instances, 0, i);
        lemma_quad_triangles_share_diagonal(b@.instances.len(), n, i);
        let v = batch::quads(b@.instances, 0);
        assert(v[4 * i + 0] == v[4 * i]);
        assert(v[4 * i + 1].sdf_params == b@.instances[i].shape.sdf_params);
        assert(v[4 * i + 2].transform_index == b@.instances[i].shape.transform_index);
        assert(v[4 * i + 3].sdf_feather == b@.instances[i].shape.sdf_feather);
    }
    if r@ is Geom {
        let g = r@->Geom_0;
        assert(b@.vertices.is_prefix_of(g.vertices));
        assert(b@.indices.is_prefix_of(g.indices));
    }
}

// ---------------------------------------------------------------------------
// Textures
// ---------------------------------------------------------------------------

/// Whether element `i` is drawn with texture `t`: the one of the run that it is in,
/// or the current one if it is in none.
pub open spec fn shows_with(
    runs: Seq<TextureSegment>,
    current: Option<u32>,
    i: int,
    t: Option<u32>,
) -> bool {
    ||| exists|k: int|
        0 <= k < runs.len() && (#[trigger] runs[k]).start <= i < runs[k].start + runs[k].count
            && runs[k].bind_group == t
    ||| current == t && forall|k: int|
        0 <= k < runs.len() ==> !((#[trigger] runs[k]).start <= i < runs[k].start + runs[k].count)
}

proof fn lemma_run_ends_before(runs: Seq<TextureSegment>, len: int, k: int)
    requires
        batch::segments_tile(runs, len),
        0 <= k < runs.len(),
    ensures
        runs[k].start + runs[k].count <= batch::segments_end(runs),
    decreases runs.len() - k,
{
    if k < runs.len() - 1 {
        lemma_run_ends_before(runs, len, k + 1);
        assert(runs.take(k + 1).last() == runs[k]);
        assert(runs[k + 1].start == batch::segments_end(runs.take(k + 1)));
    }
}

/// Law: what was drawn keeps its texture when the runs are closed, whatever the
/// next texture is; and what is drawn from then on has the next one.
pub proof fn lemma_drawn_keeps_texture(
    runs: Seq<TextureSegment>,
    len: int,
    current: Option<u32>,
    next: Option<u32>,
    i: int,
    t: Option<u32>,
)
    requires
        batch::segments_tile(runs, len),
        len <= u32::MAX,
        0 <= i,
    ensures
        i < len && shows_with(runs, current, i, t) ==> shows_with(
            batch::sealed(runs, len, current),
            next,
            i,
            t,
        ),
        i >= len ==> shows_with(batch::sealed(runs, len, current), next, i, next),
        runs.is_prefix_of(batch::sealed(runs, len, current)),
{
    let after = batch::sealed(runs, len, current);
    batch::lemma_sealed_tiles(runs, len, current);
    if i < len && shows_with(runs, current, i, t) {
        if exists|k: int|
            0 <= k < runs.len() && (#[trigger] runs[k]).start <= i < runs[k].start + runs[k].count
                && runs[k].bind_group == t {
            let k = choose|k: int|
                0 <= k < runs.len() && (#[trigger] runs[k]).start <= i < runs[k].start
                    + runs[k].count && runs[k].bind_group == t;
            assert(after[k] == runs[k]);
        } else {
            lemma_uncovered_is_behind(runs, len, i);
            assert(after[runs.len() as int].bind_group == current);
            assert(after[runs.len() as int].start <= i);
        }
    }
    if i >= len {
        assert forall|k: int| 0 <= k < after.len() implies !((#[trigger] after[k]).start <= i
            < after[k].start + after[k].count) by {
            lemma_run_ends_before(after, len, k);
        }
    }
}

pub proof fn lemma_uncovered_is_behind(runs: Seq<TextureSegment>, len: int, i: int)
    requires
        batch::segments_tile(runs, len),
        0 <= i,
        forall|k: int|
            0 <= k < runs.len() ==> !((#[trigger] runs[k]).start <= i < runs[k].start
                + runs[k].count),
    ensures
        i >= batch::segments_end(runs),
    decreases runs.len(),
{
    if runs.len() > 0 {
        let rest = runs.drop_last();
        assert(batch::segments_tile(rest, len)) by {
            assert forall|k: int| 0 <= k < rest.len() implies (#[trigger] rest[k]).start
                == batch::segments_end(rest.take(k)) by {
                assert(rest.take(k) =~= runs.take(k));
                assert(rest[k] == runs[k]);
            }
            assert forall|k: int| 0 <= k < rest.len() implies (#[trigger] rest[k]).count > 0 by {
                assert(rest[k] == runs[k]);
            }
            if rest.len() > 0 {
                lemma_run_ends_before(runs, len, rest.len() - 1);
                assert(rest.last() == runs[rest.len() - 1]);
            }
        }
        assert forall|k: int| 0 <= k < rest.len() implies !((#[trigger] rest[k]).start <= i
            < rest[k].start + rest[k].count) by {
            assert(rest[k] == runs[k]);
        }
        lemma_uncovered_is_behind(rest, len, i);
        assert(runs.take(runs.len() - 1) =~= rest);
        assert(runs[runs.len() - 1].start == batch::segments_end(rest));
    }
}

/// Law: setting a texture is for what is drawn from then on, shapes and texts;
/// every index and instance that was drawn keeps its texture. Nothing is drawn.
pub proof fn lemma_texture_is_set(b: &mut DrawBatch, texture: Option<u32>, i: int, t: Option<u32>)
    requires
        b@.counts_fit(),
        batch::segments_tile(b@.texture_segments, b@.indices.len() as int),
        batch::segments_tile(b@.instance_texture_segments, b@.instances.len() as int),
        0 <= i,
        call_ensures(DrawBatch::set_texture, (b, texture), ()),
    ensures
        final(b)@.bind_group == texture,
        final(b)@.text_texture == texture,
        i < old(b)@.indices.len() && shows_with(
            old(b)@.texture_segments,
            old(b)@.bind_group,
            i,
            t,
        ) ==> shows_with(final(b)@.texture_segments, final(b)@.bind_group, i, t),
        i < old(b)@.instances.len() && shows_with(
            old(b)@.instance_texture_segments,
            old(b)@.bind_group,
            i,
            t,
        ) ==> shows_with(final(b)@.instance_texture_segments, final(b)@.bind_group, i, t),
        i >= old(b)@.indices.len() ==> shows_with(
            final(b)@.texture_segments,
            final(b)@.bind_group,
            i,
            texture,
        ),
        i >= old(b)@.instances.len() ==> shows_with(
            final(b)@.instance_texture_segments,
            final(b)@.bind_group,
            i,
            texture,
        ),
        drew_the_same(final(b)@, old(b)@),
        same_standing(final(b)@, old(b)@),
        final(b)@.color == old(b)@.color,
        final(b)@.uv == old(b)@.uv,
        final(b)@.sdf_feather == old(b)@.sdf_feather,
        final(b)@.transform == old(b)@.transform,
{
    lemma_drawn_keeps_texture(
        b@.texture_segments,
        b@.indices.len() as int,
        b@.bind_group,
        texture,
        i,
        t,
    );
    lemma_drawn_keeps_texture(
        b@.instance_texture_segments,
        b@.instances.len() as int,
        b@.bind_group,
        texture,
        i,
        t,
    );
}

/// Law: setting a bind group is setting a texture for shapes alone; texts have
/// none from then on.
pub proof fn lemma_bind_group_is_set(b: &mut DrawBatch, group: Option<u32>, i: int, t: Option<u32>)
    requires
        b@.counts_fit(),
        batch::segments_tile(b@.texture_segments, b@.indices.len() as int),
        batch::segments_tile(b@.instance_texture_segments, b@.instances.len() as int),
        0 <= i,
        call_ensures(DrawBatch::set_bind_group, (b, group), ()),
    ensures
        final(b)@.bind_group == group,
        final(b)@.text_texture is None,
        i < old(b)@.indices.len() && shows_with(
            old(b)@.texture_segments,
            old(b)@.bind_group,
            i,
            t,
        ) ==> shows_with(final(b)@.texture_segments, final(b)@.bind_group, i, t),
        i < old(b)@.instances.len() && shows_with(
            old(b)@.instance_texture_segments,
            old(b)@.bind_group,
            i,
            t,
        ) ==> shows_with(final(b)@.instance_texture_segments, final(b)@.bind_group, i, t),
        i >= old(b)@.indices.len() ==> shows_with(
            final(b)@.texture_segments,
            final(b)@.bind_group,
            i,
            group,
        ),
        drew_the_same(final(b)@, old(b)@),
        same_standing(final(b)@, old(b)@),
{
    lemma_drawn_keeps_texture(
        b@.texture_segments,
        b@.indices.len() as int,
        b@.bind_group,
        group,
        i,
        t,
    );
    lemma_drawn_keeps_texture(
        b@.instance_texture_segments,
        b@.instances.len() as int,
        b@.bind_group,
        group,
        i,
        t,
    );
}

/// Law: closing a run of indices gives what was drawn since the last one the
/// texture that is told, and nothing else another one.
pub proof fn lemma_closed_run_has_texture(
    b: &mut DrawBatch,
    told: Option<u32>,
    next: Option<u32>,
    i: int,
    t: Option<u32>,
)
    requires
        b@.counts_fit(),
        batch::segments_tile(b@.texture_segments, b@.indices.len() as int),
        0 <= i,
        call_ensures(DrawBatch::add_texture_segment, (b, told), ()),
    ensures
        i < old(b)@.indices.len() && shows_with(old(b)@.texture_segments, told, i, t) ==> shows_with(
            final(b)@.texture_segments,
            next,
            i,
            t,
        ),
        i >= old(b)@.indices.len() ==> shows_with(final(b)@.texture_segments, next, i, next),
        final(b)@.instance_texture_segments == old(b)@.instance_texture_segments,
        drew_the_same(final(b)@, old(b)@),
        same_brush(final(b)@, old(b)@),
        same_standing(final(b)@, old(b)@),
{
    lemma_drawn_keeps_texture(b@.texture_segments, b@.indices.len() as int, told, next, i, t);
}

/// Law: so does closing a run of instances.
pub proof fn lemma_closed_instance_run_has_texture(
    b: &mut DrawBatch,
    told: Option<u32>,
    next: Option<u32>,
    i: int,
    t: Option<u32>,
)
    requires
        b@.counts_fit(),
        batch::segments_tile(b@.instance_texture_segments, b@.instances.len() as int),
        0 <= i,
        call_ensures(DrawBatch::add_instance_texture_segment, (b, told), ()),
    ensures
        i < old(b)@.instances.len() && shows_with(old(b)@.instance_texture_segments, told, i, t)
            ==> shows_with(final(b)@.instance_texture_segments, next, i, t),
        i >= old(b)@.instances.len() ==> shows_with(
            final(b)@.instance_texture_segments,
            next,
            i,
            next,
        ),
        final(b)@.texture_segments == old(b)@.texture_segments,
        drew_the_same(final(b)@, old(b)@),
        same_brush(final(b)@, old(b)@),
        same_standing(final(b)@, old(b)@),
{
    lemma_drawn_keeps_texture(
        b@.instance_texture_segments,
        b@.instances.len() as int,
        told,
        next,
        i,
        t,
    );
}

/// Law: asking for the brush's row gives the one that is remembered, or one that
/// holds the brush's matrix, and remembers it.
pub proof fn lemma_brush_row_is_given(b: &mut DrawBatch, current: Affine, r: u32)
    requires
        b@.own_wf(),
        b@.room_for_brush(),
        b@.cached_transform_index is None ==> key_is_free(b@.transforms, current),
        call_ensures(DrawBatch::current_transform_index, (b, current), r),
    ensures
        in_brush_row(old(b)@, final(b)@, r, current),
        final(b)@.vertices == old(b)@.vertices,
        final(b)@.instances == old(b)@.instances,
        final(b)@.texts == old(b)@.texts,
        same_brush(final(b)@, old(b)@),
        same_runs(final(b)@, old(b)@),
        same_standing(final(b)@, old(b)@),
{
    lemma_brush_row(b@, current);
}

// ---------------------------------------------------------------------------
// Overrides
// ---------------------------------------------------------------------------

/// Law: while an override is on, what it names is in place of the brush's, and the
/// rest of the brush is as it was; what was drawn keeps its texture.
pub proof fn lemma_override_is_on(
    b: &mut DrawBatch,
    opts: ShapeOverride,
    instanced: bool,
    saved: SavedBrush,
    i: int,
    t: Option<u32>,
)
    requires
        b@.counts_fit(),
        batch::segments_tile(b@.texture_segments, b@.indices.len() as int),
        batch::segments_tile(b@.instance_texture_segments, b@.instances.len() as int),
        0 <= i,
        call_ensures(DrawBatch::begin_override, (b, opts, instanced), saved),
    ensures
        opts.color matches Some(c) ==> final(b)@.color == c,
        opts.color is None ==> final(b)@.color == old(b)@.color,
        opts.sdf_feather matches Some(f) ==> final(b)@.sdf_feather == f,
        opts.sdf_feather is None ==> final(b)@.sdf_feather == old(b)@.sdf_feather,
        opts.uv matches Some(uv) ==> final(b)@.uv == uv,
        opts.uv is None ==> final(b)@.uv == old(b)@.uv,
        opts.transform is Some ==> final(b)@.transform == opts.transform && final(b)@.cached_transform_index is None,
        opts.transform is None ==> final(b)@.transform == old(b)@.transform && final(b)@.cached_transform_index == old(b)@.cached_transform_index,
        opts.bind_group matches Some(g) ==> final(b)@.bind_group == g,
        opts.bind_group is None ==> final(b)@.bind_group == old(b)@.bind_group && same_runs(
            final(b)@,
            old(b)@,
        ),
        i < old(b)@.indices.len() && shows_with(
            old(b)@.texture_segments,
            old(b)@.bind_group,
            i,
            t,
        ) ==> shows_with(final(b)@.texture_segments, final(b)@.bind_group, i, t),
        instanced && i < old(b)@.instances.len() && shows_with(
            old(b)@.instance_texture_segments,
            old(b)@.bind_group,
            i,
            t,
        ) ==> shows_with(final(b)@.instance_texture_segments, final(b)@.bind_group, i, t),
        drew_the_same(final(b)@, old(b)@),
        same_standing(final(b)@, old(b)@),
{
    let next = match opts.bind_group {
        Some(g) => g,
        None => b@.bind_group,
    };
    lemma_drawn_keeps_texture(
        b@.texture_segments,
        b@.indices.len() as int,
        b@.bind_group,
        next,
        i,
        t,
    );
    lemma_drawn_keeps_texture(
        b@.instance_texture_segments,
        b@.instances.len() as int,
        b@.bind_group,
        next,
        i,
        t,
    );
}

/// Law: taking an override off with what putting it on gave brings back the brush
/// there was, whatever was drawn in between; that stays, with the texture that it
/// was drawn with.
pub proof fn lemma_override_is_off(
    before: BatchModel,
    on: &mut DrawBatch,
    off: &mut DrawBatch,
    opts: ShapeOverride,
    instanced: bool,
    saved: SavedBrush,
    i: int,
    t: Option<u32>,
)
    requires
        before == on@,
        on@.counts_fit(),
        off@.counts_fit(),
        call_ensures(DrawBatch::begin_override, (on, opts, instanced), saved),
        call_ensures(DrawBatch::end_override, (off, saved), ()),
        batch::segments_tile(off@.texture_segments, off@.indices.len() as int),
        batch::segments_tile(off@.instance_texture_segments, off@.instances.len() as int),
        0 <= i,
    ensures
        final(off)@.color == before.color,
        final(off)@.sdf_feather == before.sdf_feather,
        final(off)@.uv == before.uv,
        final(off)@.transform == before.transform,
        final(off)@.cached_transform_index == before.cached_transform_index,
        opts.bind_group is Some || instanced ==> final(off)@.bind_group == before.bind_group,
        opts.bind_group is Some && i < old(off)@.indices.len() && shows_with(
            old(off)@.texture_segments,
            old(off)@.bind_group,
            i,
            t,
        ) ==> shows_with(final(off)@.texture_segments, final(off)@.bind_group, i, t),
        opts.bind_group is Some && instanced && i < old(off)@.instances.len() && shows_with(
            old(off)@.instance_texture_segments,
            old(off)@.bind_group,
            i,
            t,
        ) ==> shows_with(final(off)@.instance_texture_segments, final(off)@.bind_group, i, t),
        drew_the_same(final(off)@, old(off)@),
        same_standing(final(off)@, old(off)@),
{
    lemma_drawn_keeps_texture(
        off@.texture_segments,
        off@.indices.len() as int,
        off@.bind_group,
        before.bind_group,
        i,
        t,
    );
    lemma_drawn_keeps_texture(
        off@.instance_texture_segments,
        off@.instances.len() as int,
        off@.bind_group,
        before.bind_group,
        i,
        t,
    );
}

// ---------------------------------------------------------------------------
// Children
// ---------------------------------------------------------------------------

/// Law: the switches of what is inherited turn on or off what they name, and
/// nothing else; they are off at first, apart from clipping.
pub proof fn lemma_switches_switch_one(i: InheritFromParent, r: InheritFromParent, any: bool)
    ensures
        call_ensures(InheritFromParent::transform, (i,), r) ==> r.transform && r.color == i.color
            && r.sdf_feather == i.sdf_feather && r.uv == i.uv && r.clipped == i.clipped,
        call_ensures(InheritFromParent::no_transform, (i,), r) ==> !r.transform && r.color == i.color
            && r.sdf_feather == i.sdf_feather && r.uv == i.uv && r.clipped == i.clipped,
        call_ensures(InheritFromParent::color, (i,), r) ==> r.color && r.transform == i.transform
            && r.sdf_feather == i.sdf_feather && r.uv == i.uv && r.clipped == i.clipped,
        call_ensures(InheritFromParent::no_color, (i,), r) ==> !r.color && r.transform == i.transform
            && r.sdf_feather == i.sdf_feather && r.uv == i.uv && r.clipped == i.clipped,
        call_ensures(InheritFromParent::sdf_feather, (i,), r) ==> r.sdf_feather && r.transform
            == i.transform && r.color == i.color && r.uv == i.uv && r.clipped == i.clipped,
        call_ensures(InheritFromParent::no_sdf_feather, (i,), r) ==> !r.sdf_feather && r.transform
            == i.transform && r.color == i.color && r.uv == i.uv && r.clipped == i.clipped,
        call_ensures(InheritFromParent::uv, (i,), r) ==> r.uv && r.transform == i.transform
            && r.color == i.color && r.sdf_feather == i.sdf_feather && r.clipped == i.clipped,
        call_ensures(InheritFromParent::no_uv, (i,), r) ==> !r.uv && r.transform == i.transform
            && r.color == i.color && r.sdf_feather == i.sdf_feather && r.clipped == i.clipped,
        call_ensures(InheritFromParent::clipped, (i,), r) ==> r.clipped && r.transform
            == i.transform && r.color == i.color && r.sdf_feather == i.sdf_feather && r.uv == i.uv,
        call_ensures(InheritFromParent::unclipped, (i,), r) ==> !r.clipped && r.transform
            == i.transform && r.color == i.color && r.sdf_feather == i.sdf_feather && r.uv == i.uv,
        call_ensures(InheritFromParent::none, (), r) ==> !r.transform && !r.color && !r.sdf_feather
            && !r.uv && r.clipped,
        call_ensures(InheritFromParent::all, (), r) ==> r.transform && r.color && r.sdf_feather
            && r.uv && r.clipped,
        call_ensures(InheritFromParent::transform_only, (), r) ==> r.transform && !r.color
            && !r.sdf_feather && !r.uv && r.clipped,
        call_ensures(InheritFromParent::any, (i,), any) ==> (any <==> i.transform || i.color
            || i.sdf_feather || i.uv),
{
}

/// Law: a child is pushed behind the others. It takes over exactly what its
/// switches name; what it has drawn stays, apart from its place: where it takes
/// over the transform, each of its rows holds the product of the parent's transform
/// and the row there was. The parent stays as it was.
pub proof fn lemma_child_takes_over_what_it_names<
    F: Fn(Transform, Affine) -> Affine,
    G: Fn(Transform, Transform) -> Transform,
>(b: &mut DrawBatch, child: DrawBatch, mul: F, then: G, row: int)
    requires
        call_ensures(DrawBatch::push_child::<F, G>, (b, child, &mul, &then), ()),
    ensures
        final(b)@.children.len() == old(b)@.children.len() + 1,
        old(b)@.children.is_prefix_of(final(b)@.children),
        drew_the_same(final(b)@, old(b)@),
        same_brush(final(b)@, old(b)@),
        same_runs(final(b)@, old(b)@),
        final(b)@.transform == old(b)@.transform,
        final(b)@.clips_children == old(b)@.clips_children,
        ({
            let (was, now) = (child@, final(b)@.children.last());
            let flags = was.inherit;
            &&& now.color == (if flags.color {
                old(b)@.color
            } else {
                was.color
            })
            &&& now.sdf_feather == (if flags.sdf_feather {
                old(b)@.sdf_feather
            } else {
                was.sdf_feather
            })
            &&& now.uv == (if flags.uv {
                old(b)@.uv
            } else {
                was.uv
            })
            &&& now.vertices == was.vertices && now.indices == was.indices && now.texts == was.texts
            &&& now.instances == was.instances && now.polygon_edges == was.polygon_edges
            &&& now.inherit == flags && now.clips_children == was.clips_children
            &&& now.bind_group == was.bind_group && now.custom_material == was.custom_material
            &&& now.area_include == was.area_include && now.area_exclude == was.area_exclude
            &&& now.scissor == was.scissor && now.bounds == was.bounds
            &&& !flags.transform ==> now.transforms == was.transforms && now.transform
                == was.transform && now.children == was.children
            &&& flags.transform ==> now.children.len() == was.children.len()
                && now.transforms.rows.len() == was.transforms.rows.len()
            &&& flags.transform && 0 <= row < was.transforms.rows.len() / 12 ==> call_ensures(
                mul,
                (moved_by(old(b)@), transform_table::matrix_at(was.transforms.rows, row)),
                transform_table::matrix_at(now.transforms.rows, row),
            )
            &&& flags.transform ==> now.transform is Some && call_ensures(
                then,
                (moved_by(old(b)@), moved_by(was)),
                now.transform->0,
            )
        }),
{
    let was = child@;
    let now = final(b)@.children.last();
    if was.inherit.transform {
        assert(0 <= row < was.transforms.count() ==> call_ensures(
            mul,
            (moved_by(b@), transform_table::matrix_at(was.transforms.rows, row)),
            transform_table::matrix_at(now.transforms.rows, row),
        ));
    }
}

/// Law: a child that is pushed with switches has these, and else is pushed as any.
pub proof fn lemma_child_is_pushed_with_switches<
    F: Fn(Transform, Affine) -> Affine,
    G: Fn(Transform, Transform) -> Transform,
>(b: &mut DrawBatch, child: DrawBatch, inherit: InheritFromParent, mul: F, then: G)
    requires
        call_ensures(DrawBatch::push_child_with::<F, G>, (b, child, inherit, &mul, &then), ()),
    ensures
        final(b)@.children.len() == old(b)@.children.len() + 1,
        old(b)@.children.is_prefix_of(final(b)@.children),
        ({
            let (was, now) = (child@, final(b)@.children.last());
            &&& now.inherit == inherit
            &&& now.color == (if inherit.color {
                old(b)@.color
            } else {
                was.color
            })
            &&& now.sdf_feather == (if inherit.sdf_feather {
                old(b)@.sdf_feather
            } else {
                was.sdf_feather
            })
            &&& now.uv == (if inherit.uv {
                old(b)@.uv
            } else {
                was.uv
            })
            &&& now.vertices == was.vertices && now.instances == was.instances && now.texts
                == was.texts
            &&& !inherit.transform ==> now.transforms == was.transforms && now.transform
                == was.transform
        }),
{
}

/// Law: a transform that moves a tree moves every batch of it by the same, its rows
/// and its brush, and leaves what was drawn.
pub proof fn lemma_tree_is_moved_as_one<
    F: Fn(Transform, Affine) -> Affine,
    G: Fn(Transform, Transform) -> Transform,
>(before: BatchModel, after: BatchModel, by: Transform, mul: F, then: G, row: int, child: int)
    requires
        batch::tree_multiplied(before, after, by, mul, then),
    ensures
        after.vertices == before.vertices,
        after.instances == before.instances,
        after.texts == before.texts,
        after.transforms.rows.len() == before.transforms.rows.len(),
        0 <= row < before.transforms.rows.len() / 12 ==> call_ensures(
            mul,
            (by, transform_table::matrix_at(before.transforms.rows, row)),
            transform_table::matrix_at(after.transforms.rows, row),
        ),
        after.transform is Some,
        call_ensures(then, (by, moved_by(before)), after.transform->0),
        after.cached_transform_index is None,
        after.children.len() == before.children.len(),
        0 <= child < before.children.len() ==> batch::tree_multiplied(
            before.children[child],
            after.children[child],
            by,
            mul,
            then,
        ),
{
    assert(0 <= row < before.transforms.count() ==> call_ensures(
        mul,
        (by, transform_table::matrix_at(before.transforms.rows, row)),
        transform_table::matrix_at(after.transforms.rows, row),
    ));
}

/// Law: white is white: all parts are one.
pub proof fn lemma_white_is_white(r: ColorBits, k: int)
    requires
        call_ensures(white, (), r),
        0 <= k < 4,
    ensures
        r@[k] == 0x3f80_0000,
{
}

} // verus!
