//! The geometry of a whole frame, merged from its events.
//!
//! All vertices, indices, instances, transform rows and edges of a frame go
//! into one buffer each. Transform rows and edges are renumbered on the way,
//! and each event learns which part of the buffers is its own.

use vstd::prelude::*;
use crate::area::{AreaGeom, GeomModel};
use crate::batch;
use crate::batch::{push_quads, white, BatchModel, DrawBatch, InstanceRecord, TextureSegment};
use crate::flatten;
use crate::flatten::{DrawEvent, EventModel};
use crate::geometry::Affine;
use crate::transform_table;
use crate::vertex::{F32Bits, ShapeInstance, Vertex, F32_ONE, SHAPE_INSTANCE_BYTES, VERTEX_BYTES};

verus! {

/// The first shape parameter of vertex or instance number `at` names an edge
/// and is to be raised by `by`.
#[derive(Clone, Copy, Debug, PartialEq, Eq, Structural)]
pub struct EdgeShift {
    pub at: usize,
    pub by: u32,
}

/// What one event draws from the merged buffers.
#[derive(Debug)]
pub struct ShapeInfo {
    /// What is added to each index.
    pub base_vertex: u32,
    /// Runs of indices with their textures.
    pub segments: Vec<TextureSegment>,
    /// Whether the shapes are plain geometry without distance fields.
    pub geometry: bool,
    /// Runs of instances with their textures.
    pub instances: Vec<TextureSegment>,
}

/// What a [`ShapeInfo`] holds.
pub struct ShapeModel {
    pub base_vertex: int,
    pub segments: Seq<TextureSegment>,
    pub geometry: bool,
    pub instances: Seq<TextureSegment>,
}

impl View for ShapeInfo {
    type V = ShapeModel;

    open spec fn view(&self) -> ShapeModel {
        ShapeModel {
            base_vertex: self.base_vertex as int,
            segments: self.segments@,
            geometry: self.geometry,
            instances: self.instances@,
        }
    }
}

/// What some optional shapes hold.
pub open spec fn shape_models(shapes: Seq<Option<ShapeInfo>>) -> Seq<Option<ShapeModel>> {
    shapes.map_values(
        |s: Option<ShapeInfo>|
            match s {
                Some(s) => Some(s@),
                None => None,
            },
    )
}

/// The merged buffers of a frame.
#[derive(Debug)]
pub struct FrameGeometry {
    pub vertices: Vec<Vertex>,
    pub indices: Vec<u32>,
    pub instances: Vec<ShapeInstance>,
    pub vertex_shifts: Vec<EdgeShift>,
    pub instance_shifts: Vec<EdgeShift>,
    pub transforms: Vec<F32Bits>,
    pub edges: Vec<F32Bits>,
    /// One entry for each event.
    pub shapes: Vec<Option<ShapeInfo>>,
    /// The base vertex of the next event.
    pub next_vertex: u32,
    /// The first index of the next event.
    pub next_index: u32,
    /// The number of the next event's first edge.
    pub next_edge: u32,
}

/// What a [`FrameGeometry`] holds.
pub struct FrameModel {
    pub vertices: Seq<Vertex>,
    pub indices: Seq<u32>,
    pub instances: Seq<ShapeInstance>,
    pub vertex_shifts: Seq<EdgeShift>,
    pub instance_shifts: Seq<EdgeShift>,
    pub transforms: Seq<F32Bits>,
    pub edges: Seq<F32Bits>,
    pub shapes: Seq<Option<ShapeModel>>,
    pub next_vertex: int,
    pub next_index: int,
    pub next_edge: int,
}

impl View for FrameGeometry {
    type V = FrameModel;

    open spec fn view(&self) -> FrameModel {
        FrameModel {
            vertices: self.vertices@,
            indices: self.indices@,
            instances: self.instances@,
            vertex_shifts: self.vertex_shifts@,
            instance_shifts: self.instance_shifts@,
            transforms: self.transforms@,
            edges: self.edges@,
            shapes: shape_models(self.shapes@),
            next_vertex: self.next_vertex as int,
            next_index: self.next_index as int,
            next_edge: self.next_edge as int,
        }
    }
}

/// Whether the first shape parameter names an edge: polygons and line chains.
pub open spec fn names_edge(sdf_type: u32) -> bool {
    sdf_type == 6 || sdf_type == 7
}

/// Vertices with their transform rows moved by `by`.
pub open spec fn moved_vertices(vertices: Seq<Vertex>, by: int) -> Seq<Vertex> {
    vertices.map_values(
        |v: Vertex| Vertex { transform_index: (v.transform_index + by) as u32, ..v },
    )
}

/// Instances with their transform rows moved by `by`.
pub open spec fn moved_instances(records: Seq<InstanceRecord>, by: int) -> Seq<ShapeInstance> {
    records.map_values(
        |r: InstanceRecord|
            ShapeInstance { transform_index: (r.shape.transform_index + by) as u32, ..r.shape },
    )
}

/// The vertices that name edges, numbered from `start`.
pub open spec fn vertex_edge_shifts(vertices: Seq<Vertex>, start: int, by: int) -> Seq<EdgeShift>
    decreases vertices.len(),
{
    if vertices.len() == 0 {
        seq![]
    } else {
        let rest = vertex_edge_shifts(vertices.drop_last(), start, by);
        if names_edge(vertices.last().sdf_type) {
            rest.push(EdgeShift { at: (start + vertices.len() - 1) as usize, by: by as u32 })
        } else {
            rest
        }
    }
}

/// The instances that name edges, numbered from `start`.
pub open spec fn instance_edge_shifts(
    records: Seq<InstanceRecord>,
    start: int,
    by: int,
) -> Seq<EdgeShift>
    decreases records.len(),
{
    if records.len() == 0 {
        seq![]
    } else {
        let rest = instance_edge_shifts(records.drop_last(), start, by);
        if names_edge(records.last().shape.sdf_type) {
            rest.push(EdgeShift { at: (start + records.len() - 1) as usize, by: by as u32 })
        } else {
            rest
        }
    }
}

/// The runs of an event whose `total` elements start at `offset`: its own runs
/// moved there, and what they leave as a last run with the current texture.
/// Without runs of its own, everything is one run.
pub open spec fn placed_runs(
    segments: Seq<TextureSegment>,
    offset: int,
    total: int,
    bind_group: Option<u32>,
) -> Seq<TextureSegment> {
    if segments.len() == 0 {
        seq![TextureSegment { start: offset as u32, count: total as u32, bind_group }]
    } else {
        let moved = segments.map_values(
            |s: TextureSegment| TextureSegment { start: (offset + s.start) as u32, ..s },
        );
        let end = batch::segments_end(segments);
        if end < total {
            moved.push(
                TextureSegment {
                    start: (offset + end) as u32,
                    count: (total - end) as u32,
                    bind_group,
                },
            )
        } else {
            moved
        }
    }
}

/// The corners of a rectangle that covers the screen, in row 0.
pub open spec fn screen_quad(width: F32Bits, height: F32Bits) -> Seq<Vertex> {
    seq![
        Vertex::spec_uv(0, 0, 0, 0, batch::spec_white(), 0),
        Vertex::spec_uv(width, 0, 0, 0, batch::spec_white(), 0),
        Vertex::spec_uv(width, height, 0, 0, batch::spec_white(), 0),
        Vertex::spec_uv(0, height, 0, 0, batch::spec_white(), 0),
    ]
}

impl BatchModel {
    /// Whether the batch's instances are drawn as instances, and not as quads.
    pub open spec fn keeps_instances(self) -> bool {
        self.instances.len() > 0 && self.custom_material is None
    }

    /// The number of vertices that the batch takes in the merged buffer.
    pub open spec fn mesh_vertex_count(self) -> int {
        self.vertices.len() + (if self.keeps_instances() {
            0int
        } else {
            4 * self.instances.len() as int
        })
    }

    /// The vertices of the batch that name edges, when its vertices start at
    /// `start`. Instances that are drawn as quads name edges at all corners.
    pub open spec fn mesh_shifts(self, row: int, start: int, by: int) -> Seq<EdgeShift> {
        (if self.polygon_edges.len() > 0 {
            vertex_edge_shifts(self.vertices, start, by)
        } else {
            seq![]
        }) + (if self.keeps_instances() {
            seq![]
        } else {
            vertex_edge_shifts(
                batch::quads(self.instances, row),
                start + self.vertices.len(),
                by,
            )
        })
    }

    /// The number of indices that the batch takes in the merged buffer.
    pub open spec fn mesh_index_count(self) -> int {
        self.indices.len() + (if self.keeps_instances() {
            0int
        } else {
            6 * self.instances.len() as int
        })
    }
}

impl FrameModel {
    /// At the start of a frame: row 0 is the identity, nothing else is there.
    pub open spec fn start() -> FrameModel {
        FrameModel {
            vertices: seq![],
            indices: seq![],
            instances: seq![],
            vertex_shifts: seq![],
            instance_shifts: seq![],
            transforms: transform_table::row_of(Affine::spec_identity()),
            edges: seq![],
            shapes: seq![],
            next_vertex: 0,
            next_index: 0,
            next_edge: 0,
        }
    }

    /// The number of the next transform row.
    pub open spec fn next_row(self) -> int {
        self.transforms.len() as int / 12
    }

    /// The frame with a batch added.
    pub open spec fn with_batch(self, b: BatchModel) -> FrameModel {
        let row = self.next_row();
        let rowed = FrameModel {
            transforms: self.transforms + b.transforms.rows,
            edges: self.edges + b.polygon_edges,
            next_edge: self.next_edge + b.polygon_edges.len() / 4,
            ..self
        };
        if !b.has_geometry() {
            FrameModel { shapes: self.shapes.push(None), ..rowed }
        } else {
            FrameModel {
                vertices: self.vertices + moved_vertices(b.vertices, row) + (
                if b.keeps_instances() {
                    seq![]
                } else {
                    batch::quads(b.instances, row)
                }),
                indices: self.indices + b.indices + (if b.keeps_instances() {
                    seq![]
                } else {
                    batch::quads_triangles(b.instances.len(), b.vertices.len() as int)
                }),
                instances: if b.keeps_instances() {
                    self.instances + moved_instances(b.instances, row)
                } else {
                    self.instances
                },
                vertex_shifts: self.vertex_shifts + b.mesh_shifts(
                    row,
                    self.vertices.len() as int,
                    self.next_edge,
                ),
                instance_shifts: if b.keeps_instances() {
                    self.instance_shifts + instance_edge_shifts(
                        b.instances,
                        self.instances.len() as int,
                        self.next_edge,
                    )
                } else {
                    self.instance_shifts
                },
                shapes: self.shapes.push(
                    Some(
                        ShapeModel {
                            base_vertex: self.next_vertex,
                            segments: placed_runs(
                                b.texture_segments,
                                self.next_index,
                                b.mesh_index_count(),
                                b.bind_group,
                            ),
                            geometry: !b.has_sdf && b.sdf_feather is None,
                            instances: if b.keeps_instances() {
                                placed_runs(
                                    b.instance_texture_segments,
                                    self.instances.len() as int,
                                    b.instances.len() as int,
                                    b.bind_group,
                                )
                            } else {
                                seq![]
                            },
                        },
                    ),
                ),
                next_vertex: self.next_vertex + b.mesh_vertex_count(),
                next_index: self.next_index + b.mesh_index_count(),
                ..rowed
            }
        }
    }

    /// The first transform row of the geometry of a mask step; the identity if
    /// it has none of its own.
    pub open spec fn geom_row(self, g: GeomModel) -> int {
        if g.transform_table.len() == 0 {
            0
        } else {
            self.next_row()
        }
    }

    /// The frame with the geometry of a mask step added.
    pub open spec fn with_geom(self, g: GeomModel) -> FrameModel {
        let row = self.geom_row(g);
        FrameModel {
            vertices: self.vertices + moved_vertices(g.vertices, row),
            indices: self.indices + g.indices,
            vertex_shifts: if g.polygon_edges.len() > 0 {
                self.vertex_shifts + vertex_edge_shifts(
                    g.vertices,
                    self.vertices.len() as int,
                    self.next_edge,
                )
            } else {
                self.vertex_shifts
            },
            transforms: self.transforms + g.transform_table,
            edges: self.edges + g.polygon_edges,
            next_edge: self.next_edge + g.polygon_edges.len() / 4,
            shapes: self.shapes.push(
                Some(
                    ShapeModel {
                        base_vertex: self.next_vertex,
                        segments: seq![
                            TextureSegment {
                                start: self.next_index as u32,
                                count: g.indices.len() as u32,
                                bind_group: None,
                            },
                        ],
                        geometry: !g.has_sdf && g.sdf_feather is None,
                        instances: seq![],
                    },
                ),
            ),
            next_vertex: self.next_vertex + g.vertices.len(),
            next_index: self.next_index + g.indices.len(),
            ..self
        }
    }

    /// The frame with a rectangle that covers the screen added.
    pub open spec fn with_screen(self, width: F32Bits, height: F32Bits) -> FrameModel {
        FrameModel {
            vertices: self.vertices + screen_quad(width, height),
            indices: self.indices + batch::quad_triangles(0),
            shapes: self.shapes.push(
                Some(
                    ShapeModel {
                        base_vertex: self.next_vertex,
                        segments: seq![
                            TextureSegment {
                                start: self.next_index as u32,
                                count: 6,
                                bind_group: None,
                            },
                        ],
                        geometry: true,
                        instances: seq![],
                    },
                ),
            ),
            next_vertex: self.next_vertex + 4,
            next_index: self.next_index + 6,
            ..self
        }
    }

    /// The frame with one more event.
    pub open spec fn after(self, e: EventModel, width: F32Bits, height: F32Bits) -> FrameModel {
        match e {
            EventModel::Batch { batch, .. } => self.with_batch(batch),
            EventModel::StencilPop => self.with_screen(width, height),
            EventModel::AreaOp { op, .. } => match op.geom {
                Some(g) => self.with_geom(g),
                None => self.with_screen(width, height),
            },
            _ => FrameModel { shapes: self.shapes.push(None), ..self },
        }
    }

    /// The numbers of one more event fit in 32 bits.
    pub open spec fn event_fits(self, e: EventModel) -> bool {
        match e {
            EventModel::Batch { batch, .. } => {
                let row = self.next_row();
                &&& row <= u32::MAX
                &&& forall|i: int|
                    0 <= i < batch.vertices.len() ==> (#[trigger] batch.vertices[i]).transform_index
                        + row <= u32::MAX
                &&& forall|i: int|
                    0 <= i < batch.instances.len() ==> (
                    #[trigger] batch.instances[i]).shape.transform_index + row <= u32::MAX
                &&& runs_fit(batch.texture_segments, self.next_index)
                &&& runs_fit(batch.instance_texture_segments, self.instances.len() as int)
                &&& batch.vertices.len() + 4 * batch.instances.len() <= u32::MAX
            },
            EventModel::AreaOp { op, .. } => op.geom matches Some(g) ==> {
                let row = self.geom_row(g);
                &&& row <= u32::MAX
                &&& forall|i: int|
                    0 <= i < g.vertices.len() ==> (#[trigger] g.vertices[i]).transform_index + row
                        <= u32::MAX
            },
            _ => true,
        }
    }

    /// All counts of the frame fit in 32 bits.
    pub open spec fn counts_fit(self) -> bool {
        &&& self.vertices.len() <= u32::MAX
        &&& self.indices.len() <= u32::MAX
        &&& self.instances.len() <= u32::MAX
        &&& self.edges.len() <= u32::MAX
    }
}

/// Runs moved by `offset` end within 32 bits.
pub open spec fn runs_fit(segments: Seq<TextureSegment>, offset: int) -> bool {
    forall|i: int|
        0 <= i < segments.len() ==> offset + (#[trigger] segments[i]).start + segments[i].count
            <= u32::MAX
}

/// The frame of some events.
pub open spec fn frame_of(
    events: Seq<EventModel>,
    width: F32Bits,
    height: F32Bits,
) -> FrameModel
    decreases events.len(),
{
    if events.len() == 0 {
        FrameModel::start()
    } else {
        frame_of(events.drop_last(), width, height).after(events.last(), width, height)
    }
}

/// All numbers of the frame of some events fit in 32 bits.
pub open spec fn frame_fits(events: Seq<EventModel>, width: F32Bits, height: F32Bits) -> bool {
    &&& forall|i: int|
        0 <= i < events.len() ==> #[trigger] frame_of(
            events.take(i),
            width,
            height,
        ).event_fits(events[i])
    &&& frame_of(events, width, height).counts_fit()
}

impl FrameModel {
    /// Indices and vertices are counted on; edge numbers never get ahead of what
    /// is there.
    pub open spec fn counters_wf(self) -> bool {
        &&& self.next_index == self.indices.len()
        &&& self.next_vertex == self.vertices.len()
        &&& 0 <= self.next_edge <= self.edges.len()
    }

    proof fn lemma_after_grows(self, e: EventModel, width: F32Bits, height: F32Bits)
        requires
            self.counters_wf(),
        ensures
            self.after(e, width, height).counters_wf(),
            self.after(e, width, height).vertices.len() >= self.vertices.len(),
            self.after(e, width, height).indices.len() >= self.indices.len(),
            self.after(e, width, height).instances.len() >= self.instances.len(),
            self.after(e, width, height).edges.len() >= self.edges.len(),
            self.after(e, width, height).transforms.len() >= self.transforms.len(),
            self.after(e, width, height).shapes.len() == self.shapes.len() + 1,
    {
        match e {
            EventModel::Batch { batch: b, .. } => {
                batch::lemma_quads_len(b.instances, self.next_row(), b.vertices.len() as int);
            },
            _ => {},
        }
    }
}

/// Law: a frame only grows with its events, has one entry for each event, and
/// its counters stay in step.
pub proof fn lemma_frame_grows(
    events: Seq<EventModel>,
    width: F32Bits,
    height: F32Bits,
    i: int,
)
    requires
        0 <= i <= events.len(),
    ensures
        frame_of(events.take(i), width, height).counters_wf(),
        frame_of(events.take(i), width, height).shapes.len() == i,
        frame_of(events.take(i), width, height).vertices.len() <= frame_of(
            events,
            width,
            height,
        ).vertices.len(),
        frame_of(events.take(i), width, height).indices.len() <= frame_of(
            events,
            width,
            height,
        ).indices.len(),
        frame_of(events.take(i), width, height).instances.len() <= frame_of(
            events,
            width,
            height,
        ).instances.len(),
        frame_of(events.take(i), width, height).edges.len() <= frame_of(
            events,
            width,
            height,
        ).edges.len(),
    decreases events.len(),
{
    if events.len() == 0 {
        assert(events.take(i) =~= events);
    } else {
        let rest = events.drop_last();
        let last = frame_of(rest, width, height);
        assert(rest.take(rest.len() as int) =~= rest);
        lemma_frame_grows(rest, width, height, rest.len() as int);
        last.lemma_after_grows(events.last(), width, height);
        if i == events.len() {
            assert(events.take(i) =~= events);
        } else {
            lemma_frame_grows(rest, width, height, i);
            assert(rest.take(i) =~= events.take(i));
        }
    }
}

fn place_runs(
    segments: &Vec<TextureSegment>,
    offset: u32,
    total: u32,
    bind_group: Option<u32>,
) -> (r: Vec<TextureSegment>)
    requires
        runs_fit(segments@, offset as int),
        offset + total <= u32::MAX,
    ensures
        r@ == placed_runs(segments@, offset as int, total as int, bind_group),
{
    let mut r: Vec<TextureSegment> = Vec::new();
    if segments.len() == 0 {
        r.push(TextureSegment { start: offset, count: total, bind_group });
        assert(r@ =~= placed_runs(segments@, offset as int, total as int, bind_group));
        return r;
    }
    let ghost moved = segments@.map_values(
        |s: TextureSegment| TextureSegment { start: (offset + s.start) as u32, ..s },
    );
    let mut i: usize = 0;
    while i < segments.len()
        invariant
            i <= segments.len(),
            runs_fit(segments@, offset as int),
            moved == segments@.map_values(
                |s: TextureSegment| TextureSegment { start: (offset + s.start) as u32, ..s },
            ),
            r@ == moved.take(i as int),
        decreases segments.len() - i,
    {
        let s = segments[i];
        r.push(
            TextureSegment { start: offset + s.start, count: s.count, bind_group: s.bind_group },
        );
        assert(r@ =~= moved.take(i + 1));
        i = i + 1;
    }
    assert(moved.take(i as int) =~= moved);
    let last = segments[segments.len() - 1];
    let end: u32 = last.start + last.count;
    if end < total {
        r.push(TextureSegment { start: offset + end, count: total - end, bind_group });
    }
    r
}

fn append_words(out: &mut Vec<u32>, more: &Vec<u32>)
    ensures
        final(out)@ == old(out)@ + more@,
{
    let ghost before = out@;
    let mut i: usize = 0;
    assert(before + more@.take(0) =~= before);
    while i < more.len()
        invariant
            i <= more.len(),
            out@ == before + more@.take(i as int),
        decreases more.len() - i,
    {
        out.push(more[i]);
        assert(out@ =~= before + more@.take(i + 1));
        i = i + 1;
    }
    assert(more@.take(i as int) =~= more@);
}

impl FrameGeometry {
    /// The geometry of a frame without events: only the identity row.
    pub fn new() -> (r: Self)
        ensures
            r@ == FrameModel::start(),
    {
        let mut transforms: Vec<F32Bits> = Vec::new();
        transforms.push(F32_ONE);
        transforms.push(0);
        transforms.push(0);
        transforms.push(0);
        transforms.push(0);
        transforms.push(F32_ONE);
        transforms.push(0);
        transforms.push(0);
        transforms.push(0);
        transforms.push(0);
        transforms.push(F32_ONE);
        transforms.push(0);
        assert(transforms@ =~= transform_table::row_of(Affine::spec_identity()));
        let r = FrameGeometry {
            vertices: Vec::new(),
            indices: Vec::new(),
            instances: Vec::new(),
            vertex_shifts: Vec::new(),
            instance_shifts: Vec::new(),
            transforms,
            edges: Vec::new(),
            shapes: Vec::new(),
            next_vertex: 0,
            next_index: 0,
            next_edge: 0,
        };
        assert(r@.shapes =~= FrameModel::start().shapes);
        r
    }

    fn push_shape(&mut self, shape: Option<ShapeInfo>)
        ensures
            final(self)@ == (FrameModel {
                shapes: old(self)@.shapes.push(
                    match shape {
                        Some(s) => Some(s@),
                        None => None,
                    },
                ),
                ..old(self)@
            }),
    {
        let ghost before = self@.shapes;
        self.shapes.push(shape);
        assert(self@.shapes =~= before.push(
            match shape {
                Some(s) => Some(s@),
                None => None,
            },
        ));
    }

    /// Appends vertices, their transform rows moved by `row`; with `shift`,
    /// those that name edges are noted.
    fn push_vertices(&mut self, vertices: &Vec<Vertex>, row: u32, shift: bool)
        requires
            old(self).vertices.len() + vertices.len() <= u32::MAX,
            forall|i: int|
                0 <= i < vertices.len() ==> (#[trigger] vertices@[i]).transform_index + row
                    <= u32::MAX,
        ensures
            final(self)@ == (FrameModel {
                vertices: old(self)@.vertices + moved_vertices(vertices@, row as int),
                vertex_shifts: if shift {
                    old(self)@.vertex_shifts + vertex_edge_shifts(
                        vertices@,
                        old(self)@.vertices.len() as int,
                        old(self)@.next_edge,
                    )
                } else {
                    old(self)@.vertex_shifts
                },
                ..old(self)@
            }),
    {
        let ghost before = *self;
        let start: usize = self.vertices.len();
        let mut i: usize = 0;
        assert(vertices@.take(0) =~= seq![]);
        assert(self.vertices@ =~= before.vertices@ + moved_vertices(
            vertices@.take(0),
            row as int,
        ));
        assert(self.vertex_shifts@ =~= before.vertex_shifts@ + vertex_edge_shifts(
            vertices@.take(0),
            start as int,
            before.next_edge as int,
        ));
        while i < vertices.len()
            invariant
                i <= vertices.len(),
                start == before.vertices.len(),
                start + vertices.len() <= u32::MAX,
                forall|j: int|
                    0 <= j < vertices.len() ==> (#[trigger] vertices@[j]).transform_index + row
                        <= u32::MAX,
                *self == (FrameGeometry {
                    vertices: self.vertices,
                    vertex_shifts: self.vertex_shifts,
                    ..before
                }),
                self.vertices@ == before.vertices@ + moved_vertices(
                    vertices@.take(i as int),
                    row as int,
                ),
                shift ==> self.vertex_shifts@ == before.vertex_shifts@ + vertex_edge_shifts(
                    vertices@.take(i as int),
                    start as int,
                    before.next_edge as int,
                ),
                !shift ==> self.vertex_shifts == before.vertex_shifts,
            decreases vertices.len() - i,
        {
            let v = vertices[i];
            let ghost taken = vertices@.take(i + 1);
            assert(taken.drop_last() =~= vertices@.take(i as int));
            self.vertices.push(v.with_transform_index(v.transform_index + row));
            assert(self.vertices@ =~= before.vertices@ + moved_vertices(taken, row as int));
            if shift && (v.sdf_type == 6 || v.sdf_type == 7) {
                let by: u32 = self.next_edge;
                self.vertex_shifts.push(EdgeShift { at: start + i, by });
            }
            if shift {
                assert(self.vertex_shifts@ =~= before.vertex_shifts@ + vertex_edge_shifts(
                    taken,
                    start as int,
                    before.next_edge as int,
                ));
            }
            i = i + 1;
        }
        assert(vertices@.take(i as int) =~= vertices@);
    }

    /// Notes the vertices from `from` on that name edges.
    fn note_shifts(&mut self, from: usize)
        requires
            from <= old(self).vertices.len(),
        ensures
            final(self)@ == (FrameModel {
                vertex_shifts: old(self)@.vertex_shifts + vertex_edge_shifts(
                    old(self)@.vertices.skip(from as int),
                    from as int,
                    old(self)@.next_edge,
                ),
                ..old(self)@
            }),
    {
        let ghost before = *self;
        let ghost tail = self.vertices@.skip(from as int);
        let by: u32 = self.next_edge;
        let mut i: usize = from;
        assert(tail.take(0) =~= seq![]);
        assert(self.vertex_shifts@ =~= before.vertex_shifts@ + vertex_edge_shifts(
            tail.take(0),
            from as int,
            by as int,
        ));
        while i < self.vertices.len()
            invariant
                from <= i <= self.vertices.len(),
                by == before.next_edge,
                tail == before.vertices@.skip(from as int),
                *self == (FrameGeometry { vertex_shifts: self.vertex_shifts, ..before }),
                self.vertex_shifts@ == before.vertex_shifts@ + vertex_edge_shifts(
                    tail.take(i - from),
                    from as int,
                    by as int,
                ),
            decreases self.vertices.len() - i,
        {
            let ghost taken = tail.take(i - from + 1);
            assert(taken.drop_last() =~= tail.take(i - from));
            let sdf_type: u32 = self.vertices[i].sdf_type;
            if sdf_type == 6 || sdf_type == 7 {
                self.vertex_shifts.push(EdgeShift { at: i, by });
            }
            assert(self.vertex_shifts@ =~= before.vertex_shifts@ + vertex_edge_shifts(
                taken,
                from as int,
                by as int,
            ));
            i = i + 1;
        }
        assert(tail.take(i - from) =~= tail);
    }

    /// Appends instances, their transform rows moved by `row`; those that name
    /// edges are noted.
    fn push_instances(&mut self, records: &Vec<InstanceRecord>, row: u32)
        requires
            old(self).instances.len() + records.len() <= u32::MAX,
            forall|i: int|
                0 <= i < records.len() ==> (#[trigger] records@[i]).shape.transform_index + row
                    <= u32::MAX,
        ensures
            final(self)@ == (FrameModel {
                instances: old(self)@.instances + moved_instances(records@, row as int),
                instance_shifts: old(self)@.instance_shifts + instance_edge_shifts(
                    records@,
                    old(self)@.instances.len() as int,
                    old(self)@.next_edge,
                ),
                ..old(self)@
            }),
    {
        let ghost before = *self;
        let start: usize = self.instances.len();
        let mut i: usize = 0;
        assert(records@.take(0) =~= seq![]);
        assert(self.instances@ =~= before.instances@ + moved_instances(
            records@.take(0),
            row as int,
        ));
        assert(self.instance_shifts@ =~= before.instance_shifts@ + instance_edge_shifts(
            records@.take(0),
            start as int,
            before.next_edge as int,
        ));
        while i < records.len()
            invariant
                i <= records.len(),
                start == before.instances.len(),
                start + records.len() <= u32::MAX,
                forall|j: int|
                    0 <= j < records.len() ==> (#[trigger] records@[j]).shape.transform_index + row
                        <= u32::MAX,
                *self == (FrameGeometry {
                    instances: self.instances,
                    instance_shifts: self.instance_shifts,
                    ..before
                }),
                self.instances@ == before.instances@ + moved_instances(
                    records@.take(i as int),
                    row as int,
                ),
                self.instance_shifts@ == before.instance_shifts@ + instance_edge_shifts(
                    records@.take(i as int),
                    start as int,
                    before.next_edge as int,
                ),
            decreases records.len() - i,
        {
            let shape = records[i].shape;
            let ghost taken = records@.take(i + 1);
            assert(taken.drop_last() =~= records@.take(i as int));
            self.instances.push(
                ShapeInstance { transform_index: shape.transform_index + row, ..shape },
            );
            assert(self.instances@ =~= before.instances@ + moved_instances(taken, row as int));
            if shape.sdf_type == 6 || shape.sdf_type == 7 {
                let by: u32 = self.next_edge;
                self.instance_shifts.push(EdgeShift { at: start + i, by });
            }
            assert(self.instance_shifts@ =~= before.instance_shifts@ + instance_edge_shifts(
                taken,
                start as int,
                before.next_edge as int,
            ));
            i = i + 1;
        }
        assert(records@.take(i as int) =~= records@);
    }

    /// Adds a rectangle that covers the screen.
    fn add_screen(&mut self, width: F32Bits, height: F32Bits)
        requires
            old(self)@.counters_wf(),
            old(self)@.with_screen(width, height).counts_fit(),
        ensures
            final(self)@ == old(self)@.with_screen(width, height),
    {
        let ghost before = *self;
        self.vertices.push(Vertex::new_uv_xform(0, 0, 0, 0, white(), 0));
        self.vertices.push(Vertex::new_uv_xform(width, 0, 0, 0, white(), 0));
        self.vertices.push(Vertex::new_uv_xform(width, height, 0, 0, white(), 0));
        self.vertices.push(Vertex::new_uv_xform(0, height, 0, 0, white(), 0));
        assert(self.vertices@ =~= before.vertices@ + screen_quad(width, height));
        self.indices.push(0);
        self.indices.push(1);
        self.indices.push(2);
        self.indices.push(0);
        self.indices.push(2);
        self.indices.push(3);
        assert(self.indices@ =~= before.indices@ + batch::quad_triangles(0));
        let mut segments: Vec<TextureSegment> = Vec::new();
        segments.push(TextureSegment { start: self.next_index, count: 6, bind_group: None });
        let shape = ShapeInfo {
            base_vertex: self.next_vertex,
            segments,
            geometry: true,
            instances: Vec::new(),
        };
        assert(shape@.segments =~= seq![
            TextureSegment { start: self.next_index as u32, count: 6, bind_group: None },
        ]);
        assert(shape@.instances =~= seq![]);
        self.push_shape(Some(shape));
        self.next_vertex = self.next_vertex + 4;
        self.next_index = self.next_index + 6;
    }

    /// Adds the geometry of a mask step.
    fn add_geom(&mut self, g: &AreaGeom)
        requires
            old(self)@.counters_wf(),
            old(self)@.geom_row(g@) <= u32::MAX,
            forall|i: int|
                0 <= i < g.vertices.len() ==> (#[trigger] g@.vertices[i]).transform_index + old(
                    self,
                )@.geom_row(g@) <= u32::MAX,
            old(self)@.with_geom(g@).counts_fit(),
        ensures
            final(self)@ == old(self)@.with_geom(g@),
    {
        let ghost before = self@;
        let row: u32 = if g.transform_table.len() == 0 {
            0
        } else {
            (self.transforms.len() / 12) as u32
        };
        self.push_vertices(&g.vertices, row, g.polygon_edges.len() > 0);
        append_words(&mut self.indices, &g.indices);
        append_words(&mut self.transforms, &g.transform_table);
        append_words(&mut self.edges, &g.polygon_edges);
        self.next_edge = self.next_edge + (g.polygon_edges.len() / 4) as u32;
        let mut segments: Vec<TextureSegment> = Vec::new();
        segments.push(
            TextureSegment {
                start: self.next_index,
                count: g.indices.len() as u32,
                bind_group: None,
            },
        );
        let shape = ShapeInfo {
            base_vertex: self.next_vertex,
            segments,
            geometry: g.geometry_mode(),
            instances: Vec::new(),
        };
        assert(shape@.segments =~= seq![
            TextureSegment {
                start: before.next_index as u32,
                count: g.indices@.len() as u32,
                bind_group: None,
            },
        ]);
        assert(shape@.instances =~= seq![]);
        self.push_shape(Some(shape));
        self.next_vertex = self.next_vertex + g.vertices.len() as u32;
        self.next_index = self.next_index + g.indices.len() as u32;
        assert(self@ == before.with_geom(g@));
    }

    /// Adds a batch.
    fn add_batch(&mut self, b: &DrawBatch)
        requires
            old(self)@.counters_wf(),
            old(self)@.event_fits(EventModel::Batch { batch: b@, auto_scissor: None }),
            old(self)@.with_batch(b@).counts_fit(),
        ensures
            final(self)@ == old(self)@.with_batch(b@),
    {
        let ghost before = self@;
        proof {
            batch::lemma_quads_len(b@.instances, before.next_row(), b@.vertices.len() as int);
        }
        let row: u32 = (self.transforms.len() / 12) as u32;
        if b.vertices.len() == 0 && b.instances.len() == 0 {
            append_words(&mut self.transforms, b.transforms.rows());
            append_words(&mut self.edges, &b.polygon_edges);
            self.next_edge = self.next_edge + (b.polygon_edges.len() / 4) as u32;
            self.push_shape(None);
            assert(self@ == before.with_batch(b@));
            return;
        }
        let keeps = b.instances.len() > 0 && b.custom_material.is_none();
        let mut instances: Vec<TextureSegment> = Vec::new();
        if keeps {
            instances = place_runs(
                &b.instance_texture_segments,
                self.instances.len() as u32,
                b.instances.len() as u32,
                b.bind_group,
            );
            self.push_instances(&b.instances, row);
        }
        self.push_vertices(&b.vertices, row, b.polygon_edges.len() > 0);
        append_words(&mut self.indices, &b.indices);
        let mut mesh_index_count: u32 = b.indices.len() as u32;
        let mut mesh_vertex_count: u32 = b.vertices.len() as u32;
        if !keeps {
            let first: usize = self.vertices.len();
            push_quads(
                &b.instances,
                row,
                b.vertices.len() as u32,
                &mut self.vertices,
                &mut self.indices,
            );
            assert(self.vertices@.skip(first as int) =~= batch::quads(b@.instances, row as int));
            self.note_shifts(first);
            mesh_index_count = mesh_index_count + 6 * b.instances.len() as u32;
            mesh_vertex_count = mesh_vertex_count + 4 * b.instances.len() as u32;
        }
        assert(self.vertices@ =~= before.with_batch(b@).vertices);
        assert(self.indices@ =~= before.with_batch(b@).indices);
        assert(self.vertex_shifts@ =~= before.with_batch(b@).vertex_shifts);
        assert(mesh_index_count == b@.mesh_index_count());
        assert(mesh_vertex_count == b@.mesh_vertex_count());
        let segments = place_runs(
            &b.texture_segments,
            self.next_index,
            mesh_index_count,
            b.bind_group,
        );
        append_words(&mut self.transforms, b.transforms.rows());
        append_words(&mut self.edges, &b.polygon_edges);
        self.next_edge = self.next_edge + (b.polygon_edges.len() / 4) as u32;
        let shape = ShapeInfo {
            base_vertex: self.next_vertex,
            segments,
            geometry: !b.has_sdf && b.sdf_feather.is_none(),
            instances,
        };
        if !keeps {
            assert(shape@.instances =~= seq![]);
        }
        self.push_shape(Some(shape));
        self.next_vertex = self.next_vertex + mesh_vertex_count;
        self.next_index = self.next_index + mesh_index_count;
        assert(self@ == before.with_batch(b@));
    }

    /// The size of the vertices on the GPU, in bytes.
    pub fn vertex_bytes(&self) -> (r: u64)
        requires
            self@.counts_fit(),
        ensures
            r == self@.vertices.len() * 68,
    {
        self.vertices.len() as u64 * VERTEX_BYTES
    }

    /// The size of the indices on the GPU, in bytes.
    pub fn index_bytes(&self) -> (r: u64)
        requires
            self@.counts_fit(),
        ensures
            r == self@.indices.len() * 4,
    {
        self.indices.len() as u64 * 4
    }

    /// The size of the instances on the GPU, in bytes.
    pub fn instance_bytes(&self) -> (r: u64)
        requires
            self@.counts_fit(),
        ensures
            r == self@.instances.len() * 104,
    {
        self.instances.len() as u64 * SHAPE_INSTANCE_BYTES
    }
}

/// Merges the geometry of a frame's events, for a screen of the given size.
pub fn build_frame(events: &Vec<DrawEvent>, width: F32Bits, height: F32Bits) -> (r: FrameGeometry)
    requires
        frame_fits(flatten::event_models(events@), width, height),
    ensures
        r@ == frame_of(flatten::event_models(events@), width, height),
{
    let ghost models = flatten::event_models(events@);
    let mut frame = FrameGeometry::new();
    let mut i: usize = 0;
    assert(models.take(0) =~= seq![]);
    while i < events.len()
        invariant
            i <= events.len(),
            models == flatten::event_models(events@),
            frame_fits(models, width, height),
            frame@ == frame_of(models.take(i as int), width, height),
        decreases events.len() - i,
    {
        let ghost e = models[i as int];
        assert(e == events@[i as int]@);
        proof {
            lemma_frame_grows(models, width, height, i as int);
            lemma_frame_grows(models, width, height, i + 1);
            assert(models.take(i + 1).drop_last() =~= models.take(i as int));
            assert(frame_of(models.take(i as int), width, height).event_fits(models[i as int]));
            assert(frame_of(models.take(i + 1), width, height) == frame@.after(e, width, height));
        }
        match &events[i] {
            DrawEvent::Batch { batch, .. } => {
                frame.add_batch(batch);
            },
            DrawEvent::StencilPop => {
                frame.add_screen(width, height);
            },
            DrawEvent::AreaOp { op, .. } => match op.geom() {
                Some(g) => {
                    frame.add_geom(g);
                },
                None => {
                    frame.add_screen(width, height);
                },
            },
            DrawEvent::ScissorPush(_) => {
                frame.push_shape(None);
            },
            DrawEvent::ScissorPop => {
                frame.push_shape(None);
            },
        }
        i = i + 1;
    }
    assert(models.take(i as int) =~= models);
    frame
}

} // verus!
