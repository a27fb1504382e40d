//! What holds of the merged geometry of every frame.

use vstd::prelude::*;
use crate::batch;
use crate::batch::{BatchModel, TextureSegment};
use crate::flatten::EventModel;
use crate::frame;
use crate::frame::{EdgeShift, FrameModel};
use crate::geometry::Affine;
use crate::transform_table;
use crate::vertex::{F32Bits, Vertex};

verus! {

/// An event whose transform rows, if it has any, are whole.
pub open spec fn rows_whole(e: EventModel) -> bool {
    match e {
        EventModel::Batch { batch, .. } => batch.transforms.rows.len() % 12 == 0,
        EventModel::AreaOp { op, .. } => op.geom is Some ==> op.geom->0.transform_table.len() % 12
            == 0,
        _ => true,
    }
}

/// Law: the base vertex of each event is the place of its first vertex.
pub proof fn lemma_base_vertex_is_first(events: Seq<EventModel>, width: F32Bits, height: F32Bits)
    ensures
        frame::frame_of(events, width, height).next_vertex == frame::frame_of(
            events,
            width,
            height,
        ).vertices.len(),
        forall|i: int|
            0 <= i < events.len() ==> (#[trigger] frame::frame_of(
                events,
                width,
                height,
            ).shapes[i] matches Some(s) ==> s.base_vertex == frame::frame_of(
                events.take(i),
                width,
                height,
            ).vertices.len()),
    decreases events.len(),
{
    frame::lemma_frame_grows(events, width, height, events.len() as int);
    assert(events.take(events.len() as int) =~= events);
    if events.len() > 0 {
        let rest = events.drop_last();
        lemma_base_vertex_is_first(rest, width, height);
        frame::lemma_frame_grows(rest, width, height, rest.len() as int);
        assert(rest.take(rest.len() as int) =~= rest);
        let f = frame::frame_of(rest, width, height);
        let g = frame::frame_of(events, width, height);
        assert forall|i: int| 0 <= i < events.len() implies (#[trigger] g.shapes[i] matches Some(
            s,
        ) ==> s.base_vertex == frame::frame_of(events.take(i), width, height).vertices.len()) by {
            if i < rest.len() {
                assert(rest.take(i) =~= events.take(i));
                assert(g.shapes[i] == f.shapes[i]);
            } else {
                assert(events.take(i) =~= rest);
            }
        }
    }
}

proof fn lemma_edges_noted(vertices: Seq<Vertex>, start: int, by: int, i: int)
    requires
        0 <= i < vertices.len(),
        frame::names_edge(vertices[i].sdf_type),
    ensures
        frame::vertex_edge_shifts(vertices, start, by).contains(
            EdgeShift { at: (start + i) as usize, by: by as u32 },
        ),
    decreases vertices.len(),
{
    let rest = frame::vertex_edge_shifts(vertices.drop_last(), start, by);
    let all = frame::vertex_edge_shifts(vertices, start, by);
    let shift = EdgeShift { at: (start + i) as usize, by: by as u32 };
    if i < vertices.len() - 1 {
        lemma_edges_noted(vertices.drop_last(), start, by, i);
        let k = choose|k: int| 0 <= k < rest.len() && rest[k] == shift;
        assert(all[k] == shift);
    } else {
        assert(all[all.len() - 1] == shift);
    }
}

pub proof fn lemma_noted_are_edges(vertices: Seq<Vertex>, start: int, by: int, k: int)
    requires
        0 <= start,
        start + vertices.len() <= u32::MAX,
        0 <= by <= u32::MAX,
        0 <= k < frame::vertex_edge_shifts(vertices, start, by).len(),
    ensures
        ({
            let shift = frame::vertex_edge_shifts(vertices, start, by)[k];
            &&& shift.by == by
            &&& start <= shift.at < start + vertices.len()
            &&& frame::names_edge(vertices[shift.at - start].sdf_type)
        }),
    decreases vertices.len(),
{
    let rest = frame::vertex_edge_shifts(vertices.drop_last(), start, by);
    if k < rest.len() {
        lemma_noted_are_edges(vertices.drop_last(), start, by, k);
    }
}

/// Law: of the vertices that a batch with edges puts into the frame, exactly
/// those that name an edge are shifted, by the number of edges before the
/// batch. This holds of quads as it does of meshes.
pub proof fn lemma_batch_edges_shifted(f: FrameModel, b: BatchModel)
    requires
        f.counters_wf(),
        b.has_geometry(),
        b.polygon_edges.len() > 0,
        f.with_batch(b).counts_fit(),
    ensures
        f.vertex_shifts.is_prefix_of(f.with_batch(b).vertex_shifts),
        forall|j: int|
            f.vertices.len() <= j < f.with_batch(b).vertices.len() && frame::names_edge(
                (#[trigger] f.with_batch(b).vertices[j]).sdf_type,
            ) ==> f.with_batch(b).vertex_shifts.contains(
                EdgeShift { at: j as usize, by: f.next_edge as u32 },
            ),
        forall|k: int|
            f.vertex_shifts.len() <= k < f.with_batch(b).vertex_shifts.len() ==> {
                let shift = #[trigger] f.with_batch(b).vertex_shifts[k];
                &&& shift.by == f.next_edge
                &&& f.vertices.len() <= shift.at < f.with_batch(b).vertices.len()
                &&& frame::names_edge(f.with_batch(b).vertices[shift.at as int].sdf_type)
            },
{
    let g = f.with_batch(b);
    let row = f.next_row();
    let start = f.vertices.len() as int;
    let by = f.next_edge;
    let quads: Seq<Vertex> = if b.keeps_instances() {
        seq![]
    } else {
        batch::quads(b.instances, row)
    };
    let second = start + b.vertices.len();
    let own = frame::vertex_edge_shifts(b.vertices, start, by);
    let more = frame::vertex_edge_shifts(quads, second, by);
    batch::lemma_quads_len(b.instances, row, b.vertices.len() as int);
    assert(g.vertices.len() == second + quads.len());
    assert(g.vertex_shifts =~= f.vertex_shifts + own + more);
    assert forall|j: int|
        start <= j < g.vertices.len() && frame::names_edge(
            (#[trigger] g.vertices[j]).sdf_type,
        ) implies g.vertex_shifts.contains(EdgeShift { at: j as usize, by: by as u32 }) by {
        let shift = EdgeShift { at: j as usize, by: by as u32 };
        if j < second {
            assert(g.vertices[j].sdf_type == b.vertices[j - start].sdf_type);
            lemma_edges_noted(b.vertices, start, by, j - start);
            let k = choose|k: int| 0 <= k < own.len() && own[k] == shift;
            assert(g.vertex_shifts[f.vertex_shifts.len() + k] == shift);
        } else {
            assert(g.vertices[j] == quads[j - second]);
            lemma_edges_noted(quads, second, by, j - second);
            let k = choose|k: int| 0 <= k < more.len() && more[k] == shift;
            assert(g.vertex_shifts[f.vertex_shifts.len() + own.len() + k] == shift);
        }
    }
    assert forall|k: int| f.vertex_shifts.len() <= k < g.vertex_shifts.len() implies {
        let shift = #[trigger] g.vertex_shifts[k];
        &&& shift.by == by
        &&& start <= shift.at < g.vertices.len()
        &&& frame::names_edge(g.vertices[shift.at as int].sdf_type)
    } by {
        let at = k - f.vertex_shifts.len();
        if at < own.len() {
            lemma_noted_are_edges(b.vertices, start, by, at);
            let shift = own[at];
            assert(g.vertices[shift.at as int].sdf_type == b.vertices[shift.at - start].sdf_type);
        } else {
            lemma_noted_are_edges(quads, second, by, at - own.len());
            let shift = more[at - own.len()];
            assert(g.vertices[shift.at as int] == quads[shift.at - second]);
        }
    }
}

/// Law: what the first events put into the frame stays there as more events
/// follow, and whole rows stay whole.
pub proof fn lemma_frame_keeps_prefix(
    events: Seq<EventModel>,
    width: F32Bits,
    height: F32Bits,
    i: int,
)
    requires
        0 <= i <= events.len(),
        forall|k: int| 0 <= k < events.len() ==> rows_whole(#[trigger] events[k]),
    ensures
        frame::frame_of(events.take(i), width, height).transforms.is_prefix_of(
            frame::frame_of(events, width, height).transforms,
        ),
        frame::frame_of(events.take(i), width, height).vertices.is_prefix_of(
            frame::frame_of(events, width, height).vertices,
        ),
        frame::frame_of(events.take(i), width, height).indices.is_prefix_of(
            frame::frame_of(events, width, height).indices,
        ),
        frame::frame_of(events.take(i), width, height).shapes.is_prefix_of(
            frame::frame_of(events, width, height).shapes,
        ),
        frame::frame_of(events, width, height).transforms.len() % 12 == 0,
        frame::frame_of(events, width, height).transforms.len() >= 12,
    decreases events.len(),
{
    if i == events.len() {
        assert(events.take(i) =~= events);
    }
    if events.len() > 0 {
        let rest = events.drop_last();
        assert forall|k: int| 0 <= k < rest.len() implies rows_whole(#[trigger] rest[k]) by {
            assert(rest[k] == events[k]);
        }
        assert(rows_whole(events[events.len() - 1]));
        let j = if i < events.len() {
            i
        } else {
            rest.len() as int
        };
        lemma_frame_keeps_prefix(rest, width, height, j);
        let f = frame::frame_of(rest, width, height);
        let g = frame::frame_of(events, width, height);
        assert(f.transforms.is_prefix_of(g.transforms));
        assert(f.vertices.is_prefix_of(g.vertices));
        assert(f.indices.is_prefix_of(g.indices));
        assert(f.shapes.is_prefix_of(g.shapes));
        if i < events.len() {
            assert(rest.take(i) =~= events.take(i));
        }
    }
}

/// Law: row 0 of every frame is the identity.
pub proof fn lemma_row_zero_is_identity(events: Seq<EventModel>, width: F32Bits, height: F32Bits)
    requires
        forall|k: int| 0 <= k < events.len() ==> rows_whole(#[trigger] events[k]),
    ensures
        transform_table::matrix_at(frame::frame_of(events, width, height).transforms, 0)
            == Affine::spec_identity(),
{
    lemma_frame_keeps_prefix(events, width, height, 0);
    assert(events.take(0) =~= seq![]);
    let start = FrameModel::start().transforms;
    let all = frame::frame_of(events, width, height).transforms;
    assert(all.take(12) =~= start);
    assert(transform_table::matrix_at(start, 0) == Affine::spec_identity());
    assert(forall|k: int| 0 <= k < 12 ==> all[k] == #[trigger] start[k]);
}

/// Law: the transform row that a batch's vertex is moved to holds the matrix
/// that the vertex had in its batch.
pub proof fn lemma_moved_rows_hold_their_matrix(
    events: Seq<EventModel>,
    width: F32Bits,
    height: F32Bits,
    k: int,
    row: int,
)
    requires
        0 <= k < events.len(),
        forall|j: int| 0 <= j < events.len() ==> rows_whole(#[trigger] events[j]),
        events[k] is Batch,
        0 <= row < events[k]->batch.transforms.count(),
    ensures
        transform_table::matrix_at(
            frame::frame_of(events, width, height).transforms,
            frame::frame_of(events.take(k), width, height).next_row() + row,
        ) == transform_table::matrix_at(events[k]->batch.transforms.rows, row),
{
    let b = events[k]->batch;
    let before = frame::frame_of(events.take(k), width, height);
    let after = frame::frame_of(events.take(k + 1), width, height);
    let all = frame::frame_of(events, width, height);
    assert(rows_whole(events[k]));
    let first = events.take(k);
    assert forall|j: int| 0 <= j < first.len() implies rows_whole(#[trigger] first[j]) by {
        assert(first[j] == events[j]);
    }
    lemma_frame_keeps_prefix(first, width, height, 0);
    lemma_frame_keeps_prefix(events, width, height, k + 1);
    assert(events.take(k + 1).drop_last() =~= events.take(k));
    assert(after.transforms == before.transforms + b.transforms.rows);
    let base = before.transforms.len() as int;
    assert(12 * (before.next_row() + row) == base + 12 * row);
    assert(forall|j: int|
        0 <= j < after.transforms.len() ==> all.transforms[j] == #[trigger] after.transforms[j]);
    assert(forall|j: int|
        0 <= j < b.transforms.rows.len() ==> after.transforms[base + j]
            == #[trigger] b.transforms.rows[j]);
    assert(12 * row + 11 < b.transforms.rows.len());
    assert(forall|j: int|
        0 <= j < 12 ==> all.transforms[base + 12 * row + j] == #[trigger] b.transforms.rows[12 * row
            + j]);
    let m = transform_table::matrix_at(b.transforms.rows, row);
    assert(all.transforms[base + 12 * row + 0] == b.transforms.rows[12 * row + 0]);
    assert(all.transforms[base + 12 * row + 1] == b.transforms.rows[12 * row + 1]);
    assert(all.transforms[base + 12 * row + 4] == b.transforms.rows[12 * row + 4]);
    assert(all.transforms[base + 12 * row + 5] == b.transforms.rows[12 * row + 5]);
    assert(all.transforms[base + 12 * row + 8] == b.transforms.rows[12 * row + 8]);
    assert(all.transforms[base + 12 * row + 9] == b.transforms.rows[12 * row + 9]);
}

/// Runs that follow each other from `offset` without gaps.
pub open spec fn runs_follow(runs: Seq<TextureSegment>, offset: int) -> bool {
    &&& runs.len() > 0 ==> runs[0].start == offset
    &&& forall|i: int|
        0 < i < runs.len() ==> (#[trigger] runs[i]).start == runs[i - 1].start + runs[i - 1].count
}

/// Law: if a batch's runs have no gaps, neither have they in the frame, and
/// they take in all that the batch put there.
pub proof fn lemma_placed_runs_cover(
    segments: Seq<TextureSegment>,
    offset: int,
    total: int,
    bind_group: Option<u32>,
)
    requires
        batch::segments_tile(segments, total),
        0 <= offset,
        offset + total <= u32::MAX,
        frame::runs_fit(segments, offset),
    ensures
        runs_follow(frame::placed_runs(segments, offset, total, bind_group), offset),
        batch::segments_end(frame::placed_runs(segments, offset, total, bind_group)) == offset
            + total,
{
    let runs = frame::placed_runs(segments, offset, total, bind_group);
    if segments.len() > 0 {
        assert(segments[0].start == batch::segments_end(segments.take(0)));
        assert forall|i: int| 0 < i < runs.len() implies (#[trigger] runs[i]).start == runs[i
            - 1].start + runs[i - 1].count by {
            if i < segments.len() {
                assert(segments[i].start == batch::segments_end(segments.take(i)));
                assert(segments.take(i).last() == segments[i - 1]);
                assert(offset + segments[i - 1].start + segments[i - 1].count <= u32::MAX);
                assert(offset + segments[i].start + segments[i].count <= u32::MAX);
            } else {
                assert(offset + segments[i - 1].start + segments[i - 1].count <= u32::MAX);
            }
        }
        assert(offset + segments[0].start + segments[0].count <= u32::MAX);
        let last = segments.len() - 1;
        assert(offset + segments[last].start + segments[last].count <= u32::MAX);
    }
}

/// Law: the frame has one entry of shapes for each event.
pub proof fn lemma_one_shape_per_event(events: Seq<EventModel>, width: F32Bits, height: F32Bits)
    ensures
        frame::frame_of(events, width, height).shapes.len() == events.len(),
    decreases events.len(),
{
    if events.len() > 0 {
        lemma_one_shape_per_event(events.drop_last(), width, height);
    }
}

} // verus!
