//! What holds of everything that is drawn once it is merged into a frame: it is
//! where it was, looks as it did, and is drawn by its own event.

use vstd::prelude::*;
use crate::batch;
use crate::batch::{InstanceRecord, TextureSegment};
use crate::flatten;
use crate::flatten::{DrawEvent, EventModel};
use crate::frame;
use crate::frame::{build_frame, EdgeShift, FrameGeometry, FrameModel};
use crate::frame_laws;
use crate::shape_laws;
use crate::transform_table;
use crate::vertex::{F32Bits, ShapeInstance, Vertex};

verus! {

/// Whether row `i` of some rows is row `j` of others.
pub open spec fn same_row(rows: Seq<F32Bits>, i: int, others: Seq<F32Bits>, j: int) -> bool {
    &&& 0 <= i && 12 * i + 12 <= rows.len()
    &&& 0 <= j && 12 * j + 12 <= others.len()
    &&& forall|k: int| 0 <= k < 12 ==> #[trigger] rows[12 * i + k] == others[12 * j + k]
}

/// Law: equal rows hold equal matrices.
pub proof fn lemma_same_row_same_matrix(
    rows: Seq<F32Bits>,
    i: int,
    others: Seq<F32Bits>,
    j: int,
)
    requires
        same_row(rows, i, others, j),
    ensures
        transform_table::matrix_at(rows, i) == transform_table::matrix_at(others, j),
{
    assert(rows[12 * i + 0] == others[12 * j + 0]);
    assert(rows[12 * i + 1] == others[12 * j + 1]);
    assert(rows[12 * i + 4] == others[12 * j + 4]);
    assert(rows[12 * i + 5] == others[12 * j + 5]);
    assert(rows[12 * i + 8] == others[12 * j + 8]);
    assert(rows[12 * i + 9] == others[12 * j + 9]);
}

/// Whether two vertices differ at most in their rows.
pub open spec fn alike(v: Vertex, w: Vertex) -> bool {
    &&& v.position == w.position && v.uv == w.uv && v.color == w.color
    &&& v.sdf_params == w.sdf_params && v.sdf_type == w.sdf_type
    &&& v.sdf_feather == w.sdf_feather && v.sdf_extra == w.sdf_extra
}

/// Whether two instances differ at most in their rows.
pub open spec fn alike_instances(a: ShapeInstance, b: ShapeInstance) -> bool {
    &&& a.bounds == b.bounds && a.uv_bounds == b.uv_bounds && a.uv_rect == b.uv_rect
    &&& a.color == b.color && a.sdf_params == b.sdf_params && a.sdf_extra == b.sdf_extra
    &&& a.sdf_type == b.sdf_type && a.sdf_feather == b.sdf_feather
}

/// An event whose edges, if it has any, are whole.
pub open spec fn edges_whole(e: EventModel) -> bool {
    match e {
        EventModel::Batch { batch, .. } => batch.polygon_edges.len() % 4 == 0,
        EventModel::AreaOp { op, .. } => op.geom is Some ==> op.geom->0.polygon_edges.len() % 4
            == 0,
        _ => true,
    }
}

/// Events that are merged into a frame, with whole rows.
pub open spec fn merged(
    events: Vec<DrawEvent>,
    width: F32Bits,
    height: F32Bits,
    r: FrameGeometry,
) -> bool {
    &&& call_ensures(build_frame, (&events, width, height), r)
    &&& frame::frame_fits(flatten::event_models(events@), width, height)
    &&& forall|j: int|
        0 <= j < events@.len() ==> frame_laws::rows_whole(
            #[trigger] flatten::event_models(events@)[j],
        )
}

/// What is in the frame before an event, and after it.
pub open spec fn before(
    events: Vec<DrawEvent>,
    width: F32Bits,
    height: F32Bits,
    k: int,
) -> FrameModel {
    frame::frame_of(flatten::event_models(events@).take(k), width, height)
}

proof fn lemma_prefix(events: Seq<EventModel>, width: F32Bits, height: F32Bits, i: int)
    requires
        0 <= i <= events.len(),
    ensures
        frame::frame_of(events.take(i), width, height).instances.is_prefix_of(
            frame::frame_of(events, width, height).instances,
        ),
        frame::frame_of(events.take(i), width, height).edges.is_prefix_of(
            frame::frame_of(events, width, height).edges,
        ),
        frame::frame_of(events.take(i), width, height).vertex_shifts.is_prefix_of(
            frame::frame_of(events, width, height).vertex_shifts,
        ),
        frame::frame_of(events.take(i), width, height).instance_shifts.is_prefix_of(
            frame::frame_of(events, width, height).instance_shifts,
        ),
    decreases events.len(),
{
    if i == events.len() {
        assert(events.take(i) =~= events);
    } else {
        let rest = events.drop_last();
        lemma_prefix(rest, width, height, i);
        assert(rest.take(i) =~= events.take(i));
        let f = frame::frame_of(rest, width, height);
        let g = frame::frame_of(events, width, height);
        assert(f.instances.is_prefix_of(g.instances));
        assert(f.edges.is_prefix_of(g.edges));
        assert(f.vertex_shifts.is_prefix_of(g.vertex_shifts));
        assert(f.instance_shifts.is_prefix_of(g.instance_shifts));
    }
}

/// What one event puts into the frame stays there to the end.
proof fn lemma_event_stays(
    events: Vec<DrawEvent>,
    width: F32Bits,
    height: F32Bits,
    r: FrameGeometry,
    k: int,
)
    requires
        merged(events, width, height, r),
        0 <= k < events@.len(),
    ensures
        ({
            let f = before(events, width, height, k);
            let e = flatten::event_models(events@)[k];
            let g = f.after(e, width, height);
            &&& f.counters_wf()
            &&& f.event_fits(e)
            &&& f.shapes.len() == k
            &&& f.transforms.len() % 12 == 0 && f.transforms.len() >= 12
            &&& frame_laws::rows_whole(e)
            &&& r@.shapes.len() == events@.len()
            &&& r@.shapes[k] == g.shapes[k]
            &&& r@.counts_fit()
            &&& g.counters_wf()
            &&& g.vertices.is_prefix_of(r@.vertices)
            &&& g.indices.is_prefix_of(r@.indices)
            &&& g.instances.is_prefix_of(r@.instances)
            &&& g.transforms.is_prefix_of(r@.transforms)
            &&& g.edges.is_prefix_of(r@.edges)
            &&& g.vertex_shifts.is_prefix_of(r@.vertex_shifts)
            &&& g.instance_shifts.is_prefix_of(r@.instance_shifts)
        }),
{
    let models = flatten::event_models(events@);
    let e = models[k];
    let first = models.take(k);
    assert(frame_laws::rows_whole(e));
    assert(models.take(k + 1).drop_last() =~= first);
    assert(models.take(k + 1).last() == e);
    assert forall|j: int| 0 <= j < first.len() implies frame_laws::rows_whole(
        #[trigger] first[j],
    ) by {
        assert(first[j] == models[j]);
    }
    frame_laws::lemma_frame_keeps_prefix(first, width, height, 0);
    frame_laws::lemma_frame_keeps_prefix(models, width, height, k + 1);
    lemma_prefix(models, width, height, k + 1);
    frame::lemma_frame_grows(models, width, height, k);
    frame::lemma_frame_grows(models, width, height, k + 1);
    frame_laws::lemma_one_shape_per_event(models, width, height);
    assert(frame::frame_of(models.take(k), width, height).event_fits(models[k]));
}

proof fn lemma_row_stays(
    events: Vec<DrawEvent>,
    width: F32Bits,
    height: F32Bits,
    r: FrameGeometry,
    k: int,
    own: Seq<F32Bits>,
    row: int,
)
    requires
        merged(events, width, height, r),
        0 <= k < events@.len(),
        before(events, width, height, k).after(
            flatten::event_models(events@)[k],
            width,
            height,
        ).transforms == before(events, width, height, k).transforms + own,
        own.len() % 12 == 0,
        0 <= row < own.len() / 12,
    ensures
        same_row(r@.transforms, before(events, width, height, k).next_row() + row, own, row),
{
    lemma_event_stays(events, width, height, r, k);
    let f = before(events, width, height, k);
    let g = f.after(flatten::event_models(events@)[k], width, height);
    let at = f.next_row() + row;
    assert(12 * at == f.transforms.len() + 12 * row);
    assert(12 * row + 12 <= own.len());
    assert forall|j: int| 0 <= j < 12 implies #[trigger] r@.transforms[12 * at + j] == own[12 * row
        + j] by {
        assert(r@.transforms[12 * at + j] == g.transforms[12 * at + j]);
    }
}

// ---------------------------------------------------------------------------
// Instances
// ---------------------------------------------------------------------------

/// Law: every instance of a batch without a material is among the frame's
/// instances, behind those of the events before and in its order. It is as it was,
/// and the row that it names in the frame holds the matrix that its row held in the
/// batch. The runs of its event begin where its first instance is.
pub proof fn lemma_instance_keeps_its_place(
    events: Vec<DrawEvent>,
    width: F32Bits,
    height: F32Bits,
    r: FrameGeometry,
    k: int,
    i: int,
)
    requires
        merged(events, width, height, r),
        0 <= k < events@.len(),
        flatten::event_models(events@)[k] is Batch,
        flatten::event_models(events@)[k]->batch.custom_material is None,
        0 <= i < flatten::event_models(events@)[k]->batch.instances.len(),
        flatten::event_models(events@)[k]->batch.instances[i].shape.transform_index
            < flatten::event_models(events@)[k]->batch.transforms.rows.len() / 12,
    ensures
        ({
            let b = flatten::event_models(events@)[k]->batch;
            let first = before(events, width, height, k).instances.len() as int;
            let n = r.instances@[first + i];
            &&& first + i < r.instances@.len()
            &&& alike_instances(n, b.instances[i].shape)
            &&& same_row(
                r.transforms@,
                n.transform_index as int,
                b.transforms.rows,
                b.instances[i].shape.transform_index as int,
            )
            &&& transform_table::matrix_at(r.transforms@, n.transform_index as int)
                == transform_table::matrix_at(
                b.transforms.rows,
                b.instances[i].shape.transform_index as int,
            )
            &&& r@.shapes[k] matches Some(s) && s.instances.len() > 0 && (batch::segments_tile(
                b.instance_texture_segments,
                b.instances.len() as int,
            ) ==> s.instances[0].start == first)
        }),
{
    lemma_event_stays(events, width, height, r, k);
    let b = flatten::event_models(events@)[k]->batch;
    let f = before(events, width, height, k);
    let g = f.after(flatten::event_models(events@)[k], width, height);
    let row = b.instances[i].shape.transform_index as int;
    let first = f.instances.len() as int;
    lemma_row_stays(events, width, height, r, k, b.transforms.rows, row);
    let n = r.instances@[first + i];
    assert(n == g.instances[first + i]);
    assert(g.instances[first + i] == frame::moved_instances(b.instances, f.next_row())[i]);
    assert(n.transform_index == row + f.next_row());
    lemma_same_row_same_matrix(r@.transforms, f.next_row() + row, b.transforms.rows, row);
    if batch::segments_tile(b.instance_texture_segments, b.instances.len() as int)
        && b.instance_texture_segments.len() > 0 {
        assert(b.instance_texture_segments[0].start == batch::segments_end(
            b.instance_texture_segments.take(0),
        ));
    }
}

// ---------------------------------------------------------------------------
// Meshes
// ---------------------------------------------------------------------------

/// Law: every vertex of a batch is in the frame at its number behind the base
/// vertex of its event. It is as it was, and its row holds the matrix that it had.
pub proof fn lemma_vertex_keeps_its_place(
    events: Vec<DrawEvent>,
    width: F32Bits,
    height: F32Bits,
    r: FrameGeometry,
    k: int,
    i: int,
)
    requires
        merged(events, width, height, r),
        0 <= k < events@.len(),
        flatten::event_models(events@)[k] is Batch,
        0 <= i < flatten::event_models(events@)[k]->batch.vertices.len(),
        flatten::event_models(events@)[k]->batch.vertices[i].transform_index
            < flatten::event_models(events@)[k]->batch.transforms.rows.len() / 12,
    ensures
        ({
            let b = flatten::event_models(events@)[k]->batch;
            &&& r@.shapes[k] is Some
            &&& r@.shapes[k]->0.base_vertex == before(events, width, height, k).vertices.len()
            &&& r@.shapes[k]->0.base_vertex + i < r.vertices@.len()
            &&& ({
                let v = r.vertices@[r@.shapes[k]->0.base_vertex + i];
                &&& alike(v, b.vertices[i])
                &&& same_row(
                    r.transforms@,
                    v.transform_index as int,
                    b.transforms.rows,
                    b.vertices[i].transform_index as int,
                )
            })
        }),
{
    lemma_event_stays(events, width, height, r, k);
    let b = flatten::event_models(events@)[k]->batch;
    let f = before(events, width, height, k);
    let g = f.after(flatten::event_models(events@)[k], width, height);
    let row = b.vertices[i].transform_index as int;
    lemma_row_stays(events, width, height, r, k, b.transforms.rows, row);
    let at = f.vertices.len() + i;
    assert(r@.vertices[at] == g.vertices[at]);
    assert(g.vertices[at] == frame::moved_vertices(b.vertices, f.next_row())[i]);
}

/// Law: every index of a batch is in the frame, from where the runs of its event
/// begin, in its order. The runs take in exactly the indices of the batch and those
/// of its quads, and each index is drawn with the texture that it had.
pub proof fn lemma_index_keeps_its_texture(
    events: Vec<DrawEvent>,
    width: F32Bits,
    height: F32Bits,
    r: FrameGeometry,
    k: int,
    i: int,
    t: Option<u32>,
)
    requires
        merged(events, width, height, r),
        0 <= k < events@.len(),
        flatten::event_models(events@)[k] is Batch,
        ({
            let b = flatten::event_models(events@)[k]->batch;
            &&& batch::segments_tile(b.texture_segments, b.indices.len() as int)
            &&& b.vertices.len() > 0 || b.instances.len() > 0
            &&& 0 <= i < b.indices.len()
            &&& shape_laws::shows_with(b.texture_segments, b.bind_group, i, t)
        }),
    ensures
        ({
            let b = flatten::event_models(events@)[k]->batch;
            let first = before(events, width, height, k).indices.len() as int;
            &&& first + i < r.indices@.len()
            &&& r.indices@[first + i] == b.indices[i]
            &&& r@.shapes[k] is Some
            &&& r@.shapes[k]->0.segments.len() > 0
            &&& r@.shapes[k]->0.segments[0].start == first
            &&& frame_laws::runs_follow(r@.shapes[k]->0.segments, first)
            &&& batch::segments_end(r@.shapes[k]->0.segments) == first + b.indices.len() + (
            if b.custom_material is Some {
                6 * b.instances.len()
            } else {
                0
            })
            &&& exists|q: int|
                0 <= q < r@.shapes[k]->0.segments.len() && ({
                    let run = #[trigger] r@.shapes[k]->0.segments[q];
                    run.start <= first + i < run.start + run.count && run.bind_group == t
                })
        }),
{
    lemma_event_stays(events, width, height, r, k);
    let b = flatten::event_models(events@)[k]->batch;
    let f = before(events, width, height, k);
    let g = f.after(flatten::event_models(events@)[k], width, height);
    let first = f.indices.len() as int;
    let total = b.mesh_index_count();
    assert(r@.indices[first + i] == g.indices[first + i]);
    batch::lemma_quads_len(b.instances, f.next_row(), b.vertices.len() as int);
    assert(first + total <= u32::MAX);
    assert(batch::segments_tile(b.texture_segments, total));
    frame_laws::lemma_placed_runs_cover(b.texture_segments, first, total, b.bind_group);
    lemma_placed_run_has_texture(b.texture_segments, first, total, b.bind_group, i, t);
    let runs = frame::placed_runs(b.texture_segments, first, total, b.bind_group);
    assert(r@.shapes[k]->0.segments == runs);
}

/// Law: each instance of a batch without a material is drawn with the texture that
/// it had, and the runs take in exactly the instances of the batch.
pub proof fn lemma_instance_keeps_its_texture(
    events: Vec<DrawEvent>,
    width: F32Bits,
    height: F32Bits,
    r: FrameGeometry,
    k: int,
    i: int,
    t: Option<u32>,
)
    requires
        merged(events, width, height, r),
        0 <= k < events@.len(),
        flatten::event_models(events@)[k] is Batch,
        ({
            let b = flatten::event_models(events@)[k]->batch;
            &&& b.custom_material is None
            &&& batch::segments_tile(b.instance_texture_segments, b.instances.len() as int)
            &&& 0 <= i < b.instances.len()
            &&& shape_laws::shows_with(b.instance_texture_segments, b.bind_group, i, t)
        }),
    ensures
        ({
            let b = flatten::event_models(events@)[k]->batch;
            let first = before(events, width, height, k).instances.len() as int;
            &&& r@.shapes[k] is Some
            &&& r@.shapes[k]->0.instances.len() > 0
            &&& frame_laws::runs_follow(r@.shapes[k]->0.instances, first)
            &&& batch::segments_end(r@.shapes[k]->0.instances) == first + b.instances.len()
            &&& exists|q: int|
                0 <= q < r@.shapes[k]->0.instances.len() && ({
                    let run = #[trigger] r@.shapes[k]->0.instances[q];
                    run.start <= first + i < run.start + run.count && run.bind_group == t
                })
        }),
{
    lemma_event_stays(events, width, height, r, k);
    let b = flatten::event_models(events@)[k]->batch;
    let f = before(events, width, height, k);
    let first = f.instances.len() as int;
    let total = b.instances.len() as int;
    let g = f.after(flatten::event_models(events@)[k], width, height);
    assert(g.instances.len() == first + total);
    frame_laws::lemma_placed_runs_cover(b.instance_texture_segments, first, total, b.bind_group);
    lemma_placed_run_has_texture(b.instance_texture_segments, first, total, b.bind_group, i, t);
    assert(r@.shapes[k]->0.instances == frame::placed_runs(
        b.instance_texture_segments,
        first,
        total,
        b.bind_group,
    ));
}

proof fn lemma_placed_run_has_texture(
    runs: Seq<TextureSegment>,
    offset: int,
    total: int,
    current: Option<u32>,
    i: int,
    t: Option<u32>,
)
    requires
        batch::segments_tile(runs, total),
        0 <= offset,
        offset + total <= u32::MAX,
        frame::runs_fit(runs, offset),
        0 <= i < total,
        shape_laws::shows_with(runs, current, i, t),
    ensures
        exists|q: int|
            0 <= q < frame::placed_runs(runs, offset, total, current).len() && ({
                let run = #[trigger] frame::placed_runs(runs, offset, total, current)[q];
                run.start <= offset + i < run.start + run.count && run.bind_group == t
            }),
{
    let placed = frame::placed_runs(runs, offset, total, current);
    if runs.len() == 0 {
        assert(placed[0].bind_group == t);
    } else if exists|q: int|
        0 <= q < runs.len() && (#[trigger] runs[q]).start <= i < runs[q].start + runs[q].count
            && runs[q].bind_group == t {
        let q = choose|q: int|
            0 <= q < runs.len() && (#[trigger] runs[q]).start <= i < runs[q].start + runs[q].count
                && runs[q].bind_group == t;
        assert(offset + runs[q].start + runs[q].count <= u32::MAX);
        assert(placed[q].bind_group == t);
    } else {
        shape_laws::lemma_uncovered_is_behind(runs, total, i);
        assert(placed[runs.len() as int].bind_group == t);
    }
}

/// Law: an event is drawn without distance fields exactly if its batch has none
/// and feathers nothing; a batch that has drawn nothing is not drawn.
pub proof fn lemma_which_events_draw(
    events: Vec<DrawEvent>,
    width: F32Bits,
    height: F32Bits,
    r: FrameGeometry,
    k: int,
)
    requires
        merged(events, width, height, r),
        0 <= k < events@.len(),
    ensures
        ({
            let e = flatten::event_models(events@)[k];
            let s = r@.shapes[k];
            &&& e is ScissorPush || e is ScissorPop ==> s is None
            &&& e is StencilPop ==> s is Some && s->0.geometry && s->0.instances.len() == 0
            &&& e is Batch ==> (s is None <==> e->batch.vertices.len() == 0
                && e->batch.instances.len() == 0)
            &&& e is Batch && s is Some ==> (s->0.geometry <==> !e->batch.has_sdf
                && e->batch.sdf_feather is None)
            &&& e is Batch && s is Some ==> (s->0.instances.len() > 0 <==> e->batch.instances.len()
                > 0 && e->batch.custom_material is None)
            &&& e is AreaOp ==> s is Some && s->0.instances.len() == 0
            &&& e is AreaOp && e->op.geom is Some ==> (s->0.geometry <==> !e->op.geom->0.has_sdf
                && e->op.geom->0.sdf_feather is None)
        }),
{
    lemma_event_stays(events, width, height, r, k);
    let e = flatten::event_models(events@)[k];
    if e is Batch {
        let b = e->batch;
        if b.instance_texture_segments.len() > 0 {
            let f = before(events, width, height, k);
            let runs = frame::placed_runs(
                b.instance_texture_segments,
                f.instances.len() as int,
                b.instances.len() as int,
                b.bind_group,
            );
            assert(runs.len() >= b.instance_texture_segments.len());
        }
    }
}

// ---------------------------------------------------------------------------
// Quads
// ---------------------------------------------------------------------------

/// Law: every instance of a batch with a material is in the frame as the whole box
/// of its bounds, behind the batch's own vertices; its corners are as the instance
/// is, and their row holds the matrix that it had. Its two triangles are behind the
/// batch's own indices and share a diagonal.
pub proof fn lemma_quad_keeps_its_place(
    events: Vec<DrawEvent>,
    width: F32Bits,
    height: F32Bits,
    r: FrameGeometry,
    k: int,
    i: int,
)
    requires
        merged(events, width, height, r),
        0 <= k < events@.len(),
        flatten::event_models(events@)[k] is Batch,
        flatten::event_models(events@)[k]->batch.custom_material is Some,
        0 <= i < flatten::event_models(events@)[k]->batch.instances.len(),
        flatten::event_models(events@)[k]->batch.instances[i].shape.transform_index
            < flatten::event_models(events@)[k]->batch.transforms.rows.len() / 12,
    ensures
        ({
            let b = flatten::event_models(events@)[k]->batch;
            let n = b.instances[i];
            let own = b.vertices.len() + 4 * i;
            let t = before(events, width, height, k).indices.len() + b.indices.len() + 6 * i;
            let v = r.vertices@;
            let x = r.indices@;
            &&& r@.shapes[k] is Some
            &&& ({
                let at = r@.shapes[k]->0.base_vertex + own;
                &&& at + 4 <= v.len()
                &&& shape_laws::goes_round(
                    v[at].position@,
                    v[at + 1].position@,
                    v[at + 2].position@,
                    v[at + 3].position@,
                    n.shape.bounds,
                )
                &&& forall|c: int|
                    0 <= c < 4 ==> {
                        let w = #[trigger] v[at + c];
                        &&& w.uv@[0] == n.corner_uv@[2 * c] && w.uv@[1] == n.corner_uv@[2 * c + 1]
                        &&& w.color == n.shape.color && w.sdf_params == n.shape.sdf_params
                        &&& w.sdf_type == n.shape.sdf_type && w.sdf_extra == n.shape.sdf_extra
                        &&& w.sdf_feather == n.shape.sdf_feather
                        &&& same_row(
                            r.transforms@,
                            w.transform_index as int,
                            b.transforms.rows,
                            n.shape.transform_index as int,
                        )
                    }
            })
            &&& t + 6 <= x.len()
            &&& x[t] == own && x[t + 1] == own + 1 && x[t + 2] == own + 2
            &&& x[t + 3] == own && x[t + 4] == own + 2 && x[t + 5] == own + 3
        }),
{
    lemma_event_stays(events, width, height, r, k);
    let b = flatten::event_models(events@)[k]->batch;
    let f = before(events, width, height, k);
    let g = f.after(flatten::event_models(events@)[k], width, height);
    let row = f.next_row();
    let n = b.instances[i];
    lemma_row_stays(
        events,
        width,
        height,
        r,
        k,
        b.transforms.rows,
        n.shape.transform_index as int,
    );
    batch::lemma_quads_len(b.instances, row, b.vertices.len() as int);
    shape_laws::lemma_quad_is_the_whole_box(b.instances, row, i);
    shape_laws::lemma_quad_triangles_share_diagonal(
        b.instances.len(),
        b.vertices.len() as int,
        i,
    );
    let quads = batch::quads(b.instances, row);
    let at = f.vertices.len() + b.vertices.len() + 4 * i;
    assert forall|c: int| 0 <= c < 4 implies #[trigger] r@.vertices[at + c] == quads[4 * i + c] by {
        assert(r@.vertices[at + c] == g.vertices[at + c]);
    }
    assert(r@.vertices[at + 0] == quads[4 * i + 0]);
    let triangles = batch::quads_triangles(b.instances.len(), b.vertices.len() as int);
    let t = f.indices.len() + b.indices.len() + 6 * i;
    assert forall|c: int| 0 <= c < 6 implies #[trigger] r@.indices[t + c] == triangles[6 * i
        + c] by {
        assert(r@.indices[t + c] == g.indices[t + c]);
    }
    assert(r@.indices[t + 0] == triangles[6 * i + 0]);
}

// ---------------------------------------------------------------------------
// Mask steps
// ---------------------------------------------------------------------------

/// Law: every vertex and index of a mask step is in the frame, the vertices behind
/// the base vertex of the event, the indices in its one run. Each vertex is as it
/// was, and its row holds the matrix that it had; without rows of its own it is in
/// the frame's first row, which changes nothing.
pub proof fn lemma_mask_keeps_its_place(
    events: Vec<DrawEvent>,
    width: F32Bits,
    height: F32Bits,
    r: FrameGeometry,
    k: int,
    i: int,
)
    requires
        merged(events, width, height, r),
        0 <= k < events@.len(),
        flatten::event_models(events@)[k] is AreaOp,
        flatten::event_models(events@)[k]->op.geom is Some,
    ensures
        ({
            let g = flatten::event_models(events@)[k]->op.geom->0;
            &&& r@.shapes[k] is Some
            &&& r@.shapes[k]->0.segments.len() == 1
            &&& ({
                let s = r@.shapes[k]->0;
                &&& s.segments[0].count == g.indices.len()
                &&& s.segments[0].start + g.indices.len() <= r.indices@.len()
                &&& 0 <= i < g.indices.len() ==> r.indices@[s.segments[0].start + i] == g.indices[i]
                &&& s.base_vertex == before(events, width, height, k).vertices.len()
                &&& s.base_vertex + g.vertices.len() <= r.vertices@.len()
                &&& 0 <= i < g.vertices.len() ==> alike(
                    r.vertices@[s.base_vertex + i],
                    g.vertices[i],
                )
                &&& 0 <= i < g.vertices.len() && g.vertices[i].transform_index
                    < g.transform_table.len() / 12 ==> same_row(
                    r.transforms@,
                    r.vertices@[s.base_vertex + i].transform_index as int,
                    g.transform_table,
                    g.vertices[i].transform_index as int,
                )
                &&& 0 <= i < g.vertices.len() && g.transform_table.len() == 0 ==> r.vertices@[
                s.base_vertex + i].transform_index == g.vertices[i].transform_index
            })
        }),
{
    lemma_event_stays(events, width, height, r, k);
    let m = flatten::event_models(events@)[k]->op.geom->0;
    let f = before(events, width, height, k);
    let g = f.after(flatten::event_models(events@)[k], width, height);
    if 0 <= i < m.indices.len() {
        assert(r@.indices[f.indices.len() + i] == g.indices[f.indices.len() + i]);
    }
    if 0 <= i < m.vertices.len() {
        let at = f.vertices.len() + i;
        assert(r@.vertices[at] == g.vertices[at]);
        assert(g.vertices[at] == frame::moved_vertices(m.vertices, f.geom_row(m))[i]);
        if m.vertices[i].transform_index < m.transform_table.len() / 12 {
            lemma_row_stays(
                events,
                width,
                height,
                r,
                k,
                m.transform_table,
                m.vertices[i].transform_index as int,
            );
        }
    }
}

/// Law: where the mask changes on the whole screen, the frame has a rectangle with
/// the screen's corners, taken round from the left top, in the first row, as two
/// triangles that share a diagonal.
pub proof fn lemma_screen_is_covered(
    events: Vec<DrawEvent>,
    width: F32Bits,
    height: F32Bits,
    r: FrameGeometry,
    k: int,
)
    requires
        merged(events, width, height, r),
        0 <= k < events@.len(),
        ({
            let e = flatten::event_models(events@)[k];
            e is StencilPop || (e is AreaOp && e->op.geom is None)
        }),
    ensures
        r@.shapes[k] is Some,
        r@.shapes[k]->0.segments.len() == 1,
        r@.shapes[k]->0.segments[0].count == 6,
        ({
            let at = r@.shapes[k]->0.base_vertex;
            let t = r@.shapes[k]->0.segments[0].start as int;
            let v = r.vertices@;
            let x = r.indices@;
            &&& 0 <= at && at + 4 <= v.len()
            &&& shape_laws::goes_round(
                v[at].position@,
                v[at + 1].position@,
                v[at + 2].position@,
                v[at + 3].position@,
                [0, 0, width, height],
            )
            &&& forall|c: int|
                0 <= c < 4 ==> (#[trigger] v[at + c]).transform_index == 0 && v[at + c].sdf_type
                    == 0
            &&& t + 6 <= x.len()
            &&& x[t] == 0 && x[t + 1] == 1 && x[t + 2] == 2
            &&& x[t + 3] == 0 && x[t + 4] == 2 && x[t + 5] == 3
        }),
{
    lemma_event_stays(events, width, height, r, k);
    let f = before(events, width, height, k);
    let g = f.after(flatten::event_models(events@)[k], width, height);
    let at = f.vertices.len() as int;
    let t = f.indices.len() as int;
    let quad = frame::screen_quad(width, height);
    let triangles = batch::quad_triangles(0);
    assert forall|c: int| 0 <= c < 4 implies #[trigger] r@.vertices[at + c] == quad[c] by {
        assert(r@.vertices[at + c] == g.vertices[at + c]);
    }
    assert(r@.vertices[at + 0] == quad[0]);
    assert forall|c: int| 0 <= c < 6 implies #[trigger] r@.indices[t + c] == triangles[c] by {
        assert(r@.indices[t + c] == g.indices[t + c]);
    }
    assert(r@.indices[t + 0] == triangles[0]);
}

/// Law: the first row of a frame holds the matrix that changes nothing.
pub proof fn lemma_first_row_changes_nothing(
    events: Vec<DrawEvent>,
    width: F32Bits,
    height: F32Bits,
    r: FrameGeometry,
)
    requires
        merged(events, width, height, r),
    ensures
        r.transforms@.len() >= 12,
        r.transforms@.len() % 12 == 0,
        r.transforms@[0] == 0x3f80_0000 && r.transforms@[5] == 0x3f80_0000 && r.transforms@[10]
            == 0x3f80_0000,
        forall|j: int|
            0 <= j < 12 && j != 0 && j != 5 && j != 10 ==> #[trigger] r.transforms@[j] == 0,
{
    let models = flatten::event_models(events@);
    frame_laws::lemma_frame_keeps_prefix(models, width, height, 0);
    assert(models.take(0) =~= seq![]);
    let start = FrameModel::start().transforms;
    assert(forall|j: int| 0 <= j < 12 ==> r@.transforms[j] == #[trigger] start[j]);
    assert(r@.transforms[0] == start[0] && r@.transforms[5] == start[5] && r@.transforms[10]
        == start[10]);
}

// ---------------------------------------------------------------------------
// Edges
// ---------------------------------------------------------------------------

proof fn lemma_edge_numbers(events: Seq<EventModel>, width: F32Bits, height: F32Bits)
    requires
        forall|j: int| 0 <= j < events.len() ==> edges_whole(#[trigger] events[j]),
    ensures
        4 * frame::frame_of(events, width, height).next_edge == frame::frame_of(
            events,
            width,
            height,
        ).edges.len(),
    decreases events.len(),
{
    if events.len() > 0 {
        let rest = events.drop_last();
        assert forall|j: int| 0 <= j < rest.len() implies edges_whole(#[trigger] rest[j]) by {
            assert(rest[j] == events[j]);
        }
        lemma_edge_numbers(rest, width, height);
        assert(edges_whole(events[events.len() - 1]));
    }
}

/// Whether the edges of a frame from number `by` on are those of a shape.
pub open spec fn edges_from(edges: Seq<F32Bits>, by: int, own: Seq<F32Bits>) -> bool {
    &&& 0 <= by
    &&& 4 * by + own.len() <= edges.len()
    &&& forall|j: int| 0 <= j < own.len() ==> edges[4 * by + j] == #[trigger] own[j]
}

proof fn lemma_instance_edges_noted(records: Seq<InstanceRecord>, start: int, by: int, i: int)
    requires
        0 <= i < records.len(),
        frame::names_edge(records[i].shape.sdf_type),
    ensures
        frame::instance_edge_shifts(records, start, by).contains(
            EdgeShift { at: (start + i) as usize, by: by as u32 },
        ),
    decreases records.len(),
{
    let rest = frame::instance_edge_shifts(records.drop_last(), start, by);
    let all = frame::instance_edge_shifts(records, start, by);
    let shift = EdgeShift { at: (start + i) as usize, by: by as u32 };
    if i < records.len() - 1 {
        lemma_instance_edges_noted(records.drop_last(), start, by, i);
        let k = choose|k: int| 0 <= k < rest.len() && rest[k] == shift;
        assert(all[k] == shift);
    } else {
        assert(all[all.len() - 1] == shift);
    }
}

proof fn lemma_noted_instances_name_edges(
    records: Seq<InstanceRecord>,
    start: int,
    by: int,
    k: int,
)
    requires
        0 <= start,
        start + records.len() <= u32::MAX,
        0 <= by <= u32::MAX,
        0 <= k < frame::instance_edge_shifts(records, start, by).len(),
    ensures
        ({
            let shift = frame::instance_edge_shifts(records, start, by)[k];
            &&& shift.by == by
            &&& start <= shift.at < start + records.len()
            &&& frame::names_edge(records[shift.at - start].shape.sdf_type)
        }),
    decreases records.len(),
{
    let rest = frame::instance_edge_shifts(records.drop_last(), start, by);
    if k < rest.len() {
        lemma_noted_instances_name_edges(records.drop_last(), start, by, k);
    }
}

/// Law: an instance whose shape is a polygon or a chain of lines is noted to be
/// shifted, by as much as makes the edges that it names those of its batch.
pub proof fn lemma_instance_finds_its_edges(
    events: Vec<DrawEvent>,
    width: F32Bits,
    height: F32Bits,
    r: FrameGeometry,
    k: int,
    i: int,
)
    requires
        merged(events, width, height, r),
        forall|j: int|
            0 <= j < events@.len() ==> edges_whole(#[trigger] flatten::event_models(events@)[j]),
        0 <= k < events@.len(),
        flatten::event_models(events@)[k] is Batch,
        flatten::event_models(events@)[k]->batch.custom_material is None,
        0 <= i < flatten::event_models(events@)[k]->batch.instances.len(),
        ({
            let ty = flatten::event_models(events@)[k]->batch.instances[i].shape.sdf_type;
            ty == 6 || ty == 7
        }),
    ensures
        exists|q: int|
            0 <= q < r.instance_shifts@.len() && (#[trigger] r.instance_shifts@[q]).at == before(
                events,
                width,
                height,
                k,
            ).instances.len() + i && edges_from(
                r.edges@,
                r.instance_shifts@[q].by as int,
                flatten::event_models(events@)[k]->batch.polygon_edges,
            ),
{
    lemma_event_stays(events, width, height, r, k);
    let models = flatten::event_models(events@);
    let b = models[k]->batch;
    let f = before(events, width, height, k);
    let g = f.after(models[k], width, height);
    let first = models.take(k);
    assert forall|j: int| 0 <= j < first.len() implies edges_whole(#[trigger] first[j]) by {
        assert(first[j] == models[j]);
    }
    lemma_edge_numbers(first, width, height);
    let start = f.instances.len() as int;
    let by = f.next_edge;
    lemma_instance_edges_noted(b.instances, start, by, i);
    let shift = EdgeShift { at: (start + i) as usize, by: by as u32 };
    let own = frame::instance_edge_shifts(b.instances, start, by);
    let q = choose|q: int| 0 <= q < own.len() && own[q] == shift;
    assert(g.instance_shifts[f.instance_shifts.len() + q] == shift);
    assert(r@.instance_shifts[f.instance_shifts.len() + q] == shift);
    assert(by <= u32::MAX);
    assert forall|j: int| 0 <= j < b.polygon_edges.len() implies r@.edges[4 * by + j]
        == #[trigger] b.polygon_edges[j] by {
        assert(r@.edges[4 * by + j] == g.edges[4 * by + j]);
    }
    assert(start + i < r@.instances.len()) by {
        assert(g.instances.len() == start + b.instances.len());
    }
}

/// Law: a vertex of a batch with edges whose shape is a polygon or a chain of
/// lines is noted to be shifted, by as much as makes the edges that it names those
/// of its batch.
pub proof fn lemma_vertex_finds_its_edges(
    events: Vec<DrawEvent>,
    width: F32Bits,
    height: F32Bits,
    r: FrameGeometry,
    k: int,
    at: int,
)
    requires
        merged(events, width, height, r),
        forall|j: int|
            0 <= j < events@.len() ==> edges_whole(#[trigger] flatten::event_models(events@)[j]),
        0 <= k < events@.len(),
        flatten::event_models(events@)[k] is Batch,
        flatten::event_models(events@)[k]->batch.polygon_edges.len() > 0,
        flatten::event_models(events@)[k]->batch.has_geometry(),
        before(events, width, height, k).vertices.len() <= at < before(
            events,
            width,
            height,
            k + 1,
        ).vertices.len(),
        r.vertices@[at].sdf_type == 6 || r.vertices@[at].sdf_type == 7,
    ensures
        exists|q: int|
            0 <= q < r.vertex_shifts@.len() && (#[trigger] r.vertex_shifts@[q]).at == at
                && edges_from(
                r.edges@,
                r.vertex_shifts@[q].by as int,
                flatten::event_models(events@)[k]->batch.polygon_edges,
            ),
{
    lemma_event_stays(events, width, height, r, k);
    let models = flatten::event_models(events@);
    let b = models[k]->batch;
    let f = before(events, width, height, k);
    let g = f.after(models[k], width, height);
    assert(models.take(k + 1).drop_last() =~= models.take(k));
    let first = models.take(k);
    assert forall|j: int| 0 <= j < first.len() implies edges_whole(#[trigger] first[j]) by {
        assert(first[j] == models[j]);
    }
    lemma_edge_numbers(first, width, height);
    let by = f.next_edge;
    assert(g.counts_fit());
    frame_laws::lemma_batch_edges_shifted(f, b);
    assert(g.vertices[at] == r@.vertices[at]);
    let shift = EdgeShift { at: at as usize, by: by as u32 };
    assert(g.vertex_shifts.contains(shift));
    let q = choose|q: int| 0 <= q < g.vertex_shifts.len() && g.vertex_shifts[q] == shift;
    assert(r@.vertex_shifts[q] == shift);
    assert forall|j: int| 0 <= j < b.polygon_edges.len() implies r@.edges[4 * by + j]
        == #[trigger] b.polygon_edges[j] by {
        assert(r@.edges[4 * by + j] == g.edges[4 * by + j]);
    }
}

proof fn lemma_shifts_are_earned(
    events: Seq<EventModel>,
    width: F32Bits,
    height: F32Bits,
    q: int,
)
    requires
        frame::frame_of(events, width, height).counts_fit(),
    ensures
        ({
            let f = frame::frame_of(events, width, height);
            &&& 0 <= q < f.instance_shifts.len() ==> f.instance_shifts[q].at < f.instances.len()
                && frame::names_edge(f.instances[f.instance_shifts[q].at as int].sdf_type)
            &&& 0 <= q < f.vertex_shifts.len() ==> f.vertex_shifts[q].at < f.vertices.len()
                && frame::names_edge(f.vertices[f.vertex_shifts[q].at as int].sdf_type)
        }),
    decreases events.len(),
{
    if events.len() > 0 {
        let rest = events.drop_last();
        let e = events.last();
        assert(events.take(events.len() - 1) =~= rest);
        frame::lemma_frame_grows(events, width, height, events.len() - 1);
        lemma_prefix(events, width, height, events.len() - 1);
        lemma_shifts_are_earned(rest, width, height, q);
        let f = frame::frame_of(rest, width, height);
        let g = frame::frame_of(events, width, height);
        if 0 <= q < f.instance_shifts.len() {
            assert(g.instance_shifts[q] == f.instance_shifts[q]);
            let at = f.instance_shifts[q].at as int;
            assert(g.instances[at] == f.instances[at]);
        } else if f.instance_shifts.len() <= q < g.instance_shifts.len() {
            let b = e->batch;
            let k = q - f.instance_shifts.len();
            lemma_noted_instances_name_edges(
                b.instances,
                f.instances.len() as int,
                f.next_edge,
                k,
            );
            let shift = g.instance_shifts[q];
            assert(shift == frame::instance_edge_shifts(
                b.instances,
                f.instances.len() as int,
                f.next_edge,
            )[k]);
            assert(g.instances[shift.at as int] == frame::moved_instances(
                b.instances,
                f.next_row(),
            )[shift.at - f.instances.len()]);
        }
        if 0 <= q < f.vertex_shifts.len() {
            assert(g.vertex_shifts[q] == f.vertex_shifts[q]);
            let at = f.vertex_shifts[q].at as int;
            assert(g.vertices[at] == f.vertices[at]);
        } else if f.vertex_shifts.len() <= q < g.vertex_shifts.len() {
            let k = q - f.vertex_shifts.len();
            let shift = g.vertex_shifts[q];
            let start = f.vertices.len() as int;
            match e {
                EventModel::Batch { batch: b, .. } => {
                    let own = if b.polygon_edges.len() > 0 {
                        frame::vertex_edge_shifts(b.vertices, start, f.next_edge)
                    } else {
                        seq![]
                    };
                    let quads = batch::quads(b.instances, f.next_row());
                    batch::lemma_quads_len(b.instances, f.next_row(), b.vertices.len() as int);
                    if k < own.len() {
                        assert(shift == own[k]);
                        frame_laws::lemma_noted_are_edges(b.vertices, start, f.next_edge, k);
                        assert(g.vertices[shift.at as int] == frame::moved_vertices(
                            b.vertices,
                            f.next_row(),
                        )[shift.at - start]);
                    } else {
                        let second = start + b.vertices.len();
                        assert(shift == frame::vertex_edge_shifts(quads, second, f.next_edge)[k
                            - own.len()]);
                        frame_laws::lemma_noted_are_edges(
                            quads,
                            second,
                            f.next_edge,
                            k - own.len(),
                        );
                        assert(g.vertices[shift.at as int] == quads[shift.at - second]);
                    }
                },
                EventModel::AreaOp { op, .. } => {
                    let m = op.geom->0;
                    assert(shift == frame::vertex_edge_shifts(m.vertices, start, f.next_edge)[k]);
                    frame_laws::lemma_noted_are_edges(m.vertices, start, f.next_edge, k);
                    assert(g.vertices[shift.at as int] == frame::moved_vertices(
                        m.vertices,
                        f.geom_row(m),
                    )[shift.at - start]);
                },
                _ => {},
            }
        }
    }
}

/// Law: only polygons and chains of lines are shifted.
pub proof fn lemma_only_edges_are_shifted(
    events: Vec<DrawEvent>,
    width: F32Bits,
    height: F32Bits,
    r: FrameGeometry,
    q: int,
)
    requires
        merged(events, width, height, r),
    ensures
        0 <= q < r.instance_shifts@.len() ==> r.instance_shifts@[q].at < r.instances@.len() && (
        r.instances@[r.instance_shifts@[q].at as int].sdf_type == 6 || r.instances@[
        r.instance_shifts@[q].at as int].sdf_type == 7),
        0 <= q < r.vertex_shifts@.len() ==> r.vertex_shifts@[q].at < r.vertices@.len() && (
        r.vertices@[r.vertex_shifts@[q].at as int].sdf_type == 6 || r.vertices@[
        r.vertex_shifts@[q].at as int].sdf_type == 7),
{
    lemma_shifts_are_earned(flatten::event_models(events@), width, height, q);
}

/// Law: what is said of a frame is said of its parts, each of its own.
pub proof fn lemma_frame_is_its_parts(f: FrameGeometry, k: int, e: DrawEvent)
    requires
        0 <= k < f.shapes@.len(),
    ensures
        f@.vertices == f.vertices@,
        f@.indices == f.indices@,
        f@.instances == f.instances@,
        f@.transforms == f.transforms@,
        f@.edges == f.edges@,
        f@.vertex_shifts == f.vertex_shifts@,
        f@.instance_shifts == f.instance_shifts@,
        f@.shapes.len() == f.shapes@.len(),
        f@.shapes[k] is Some <==> f.shapes@[k] is Some,
        f.shapes@[k] is Some ==> {
            let (s, m) = (f.shapes@[k]->0, f@.shapes[k]->0);
            &&& m.base_vertex == s.base_vertex
            &&& m.segments == s.segments@
            &&& m.geometry == s.geometry
            &&& m.instances == s.instances@
        },
        e@ is Batch <==> e is Batch,
        e is Batch ==> e@->batch == e->batch@,
        e@ is StencilPop <==> e is StencilPop,
        e@ is ScissorPush <==> e is ScissorPush,
        e@ is ScissorPop <==> e is ScissorPop,
        e@ is AreaOp <==> e is AreaOp,
{
}

/// Law: the bytes of the buffers are those of their elements.
pub proof fn lemma_buffer_bytes(f: FrameGeometry, v: u64, x: u64, i: u64)
    requires
        f@.counts_fit(),
        call_ensures(FrameGeometry::vertex_bytes, (&f,), v),
        call_ensures(FrameGeometry::index_bytes, (&f,), x),
        call_ensures(FrameGeometry::instance_bytes, (&f,), i),
    ensures
        v == f.vertices@.len() * 17 * 4,
        x == f.indices@.len() * 4,
        i == f.instances@.len() * 26 * 4,
{
}

} // verus!
