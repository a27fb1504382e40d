//! Batches: shapes, texts and child batches that are drawn together.

use vstd::prelude::*;
use crate::area::{effective_area, Area, AreaGeom, AreaModel, GeomModel};
use crate::geometry::{Affine, Rect, Transform, UvRect};
use crate::inherit::InheritFromParent;
use crate::transform_table::{TransformModel, TransformTable};
use crate::vertex::{f32_eq, ColorBits, F32Bits, ShapeInstance, Vertex, F32_ONE};

verus! {

/// A run of indices, or of instances, drawn with one texture. `None` is the
/// plain white texture.
#[derive(Clone, Copy, Debug, PartialEq, Eq)]
pub struct TextureSegment {
    pub start: u32,
    pub count: u32,
    pub bind_group: Option<u32>,
}

/// A shape instance with the texture coordinates of its four corners: left
/// top, right top, right bottom, left bottom, each `u` then `v`.
#[derive(Clone, Copy, Debug)]
pub struct InstanceRecord {
    pub shape: ShapeInstance,
    pub corner_uv: [F32Bits; 8],
}

/// A text of a batch: which text, and the transform row it is drawn in.
#[derive(Clone, Copy, Debug, PartialEq, Eq, Structural)]
pub struct TextEntry {
    pub id: u32,
    pub transform_index: u32,
}

/// The part of the screen that a text is cut to.
#[derive(Clone, Copy, Debug, PartialEq, Eq, Structural)]
pub struct TextBounds {
    pub left: i32,
    pub top: i32,
    pub right: i32,
    pub bottom: i32,
}

/// Shapes, texts and children drawn together: first the shapes, then the
/// texts, then the children in order. Textures and materials are numbers that
/// the caller gives out.
#[derive(Debug)]
pub struct DrawBatch {
    pub vertices: Vec<Vertex>,
    pub indices: Vec<u32>,
    pub texts: Vec<TextEntry>,
    /// The texture of shapes drawn from now on.
    pub bind_group: Option<u32>,
    /// The texture of texts drawn from now on.
    pub text_texture: Option<u32>,
    pub texture_segments: Vec<TextureSegment>,
    pub instances: Vec<InstanceRecord>,
    pub instance_texture_segments: Vec<TextureSegment>,
    /// The brush transform.
    pub transform: Option<Transform>,
    /// The feather width; `None` for plain geometry without distance fields.
    pub sdf_feather: Option<F32Bits>,
    /// The brush colour.
    pub color: ColorBits,
    /// The texture part of shapes drawn from now on.
    pub uv: UvRect,
    /// The edges of polygons and the segments of line chains, four numbers
    /// each.
    pub polygon_edges: Vec<F32Bits>,
    /// The transform rows that vertices, instances and texts refer to.
    pub transforms: TransformTable,
    /// Whether any shape is drawn with a distance field.
    pub has_sdf: bool,
    /// The row of the brush transform, while it is known.
    pub cached_transform_index: Option<u32>,
    pub children: Vec<DrawBatch>,
    /// Whether the children are cut to this batch's geometry.
    pub clips_children: bool,
    /// What this batch takes over when it is pushed as a child.
    pub inherit: InheritFromParent,
    /// Where this batch and its children are visible; `None` for everywhere.
    pub area_include: Option<Area>,
    /// Where this batch and its children are not visible; `None` for nowhere.
    pub area_exclude: Option<Area>,
    /// How the batch is dropped when off the screen: `None` never, `Some(None)`
    /// by its computed bounds, `Some(Some(r))` by `r`.
    pub bounds: Option<Option<Rect>>,
    /// A rectangle to cut the children to, in place of the stencil.
    pub scissor: Option<Rect>,
    pub text_clip: Option<TextBounds>,
    pub custom_material: Option<u32>,
    pub dynamic_offsets: Vec<u32>,
}

/// What a [`DrawBatch`] holds.
pub struct BatchModel {
    pub vertices: Seq<Vertex>,
    pub indices: Seq<u32>,
    pub texts: Seq<TextEntry>,
    pub bind_group: Option<u32>,
    pub text_texture: Option<u32>,
    pub texture_segments: Seq<TextureSegment>,
    pub instances: Seq<InstanceRecord>,
    pub instance_texture_segments: Seq<TextureSegment>,
    pub transform: Option<Transform>,
    pub sdf_feather: Option<F32Bits>,
    pub color: ColorBits,
    pub uv: UvRect,
    pub polygon_edges: Seq<F32Bits>,
    pub transforms: TransformModel,
    pub has_sdf: bool,
    pub cached_transform_index: Option<u32>,
    pub children: Seq<BatchModel>,
    pub clips_children: bool,
    pub inherit: InheritFromParent,
    pub area_include: Option<AreaModel>,
    pub area_exclude: Option<AreaModel>,
    pub bounds: Option<Option<Rect>>,
    pub scissor: Option<Rect>,
    pub text_clip: Option<TextBounds>,
    pub custom_material: Option<u32>,
    pub dynamic_offsets: Seq<u32>,
}

/// White, fully opaque.
pub open spec fn spec_white() -> ColorBits {
    [F32_ONE, F32_ONE, F32_ONE, F32_ONE]
}

/// White, fully opaque.
pub fn white() -> (r: ColorBits)
    ensures
        r == spec_white(),
{
    [F32_ONE, F32_ONE, F32_ONE, F32_ONE]
}

/// What an optional area holds.
pub open spec fn area_view(area: Option<Area>) -> Option<AreaModel> {
    match area {
        Some(a) => Some(a@),
        None => None,
    }
}

impl DrawBatch {
    /// What the batch holds, with its whole subtree.
    pub open spec fn model(self) -> BatchModel
        decreases self, 0nat,
    {
        BatchModel {
            vertices: self.vertices@,
            indices: self.indices@,
            texts: self.texts@,
            bind_group: self.bind_group,
            text_texture: self.text_texture,
            texture_segments: self.texture_segments@,
            instances: self.instances@,
            instance_texture_segments: self.instance_texture_segments@,
            transform: self.transform,
            sdf_feather: self.sdf_feather,
            color: self.color,
            uv: self.uv,
            polygon_edges: self.polygon_edges@,
            transforms: self.transforms@,
            has_sdf: self.has_sdf,
            cached_transform_index: self.cached_transform_index,
            children: models(self.children@, self.children@.len()),
            clips_children: self.clips_children,
            inherit: self.inherit,
            area_include: area_view(self.area_include),
            area_exclude: area_view(self.area_exclude),
            bounds: self.bounds,
            scissor: self.scissor,
            text_clip: self.text_clip,
            custom_material: self.custom_material,
            dynamic_offsets: self.dynamic_offsets@,
        }
    }
}

/// What the first `n` of some batches hold.
pub open spec fn models(batches: Seq<DrawBatch>, n: nat) -> Seq<BatchModel>
    decreases batches, n,
    when n <= batches.len()
{
    if n == 0 {
        seq![]
    } else {
        models(batches, (n - 1) as nat).push(batches[n - 1].model())
    }
}

impl View for DrawBatch {
    type V = BatchModel;

    open spec fn view(&self) -> BatchModel {
        self.model()
    }
}

/// Law: the children of a batch's model are the models of its children.
pub proof fn lemma_models(batches: Seq<DrawBatch>, n: nat)
    requires
        n <= batches.len(),
    ensures
        models(batches, n).len() == n,
        forall|i: int| 0 <= i < n ==> (#[trigger] models(batches, n)[i]) == batches[i]@,
    decreases n,
{
    if n > 0 {
        lemma_models(batches, (n - 1) as nat);
    }
}

proof fn lemma_models_prefix(a: Seq<DrawBatch>, b: Seq<DrawBatch>, n: nat)
    requires
        n <= a.len(),
        n <= b.len(),
        forall|i: int| 0 <= i < n ==> (#[trigger] a[i])@ == b[i]@,
    ensures
        models(a, n) == models(b, n),
{
    lemma_models(a, n);
    lemma_models(b, n);
    assert(models(a, n) =~= models(b, n));
}

impl BatchModel {
    /// An empty batch: white brush, feather 1, everything else off.
    pub open spec fn fresh() -> BatchModel {
        BatchModel {
            vertices: seq![],
            indices: seq![],
            texts: seq![],
            bind_group: None,
            text_texture: None,
            texture_segments: seq![],
            instances: seq![],
            instance_texture_segments: seq![],
            transform: None,
            sdf_feather: Some(F32_ONE),
            color: spec_white(),
            uv: UvRect { u0: 0, v0: 0, u1: F32_ONE, v1: F32_ONE },
            polygon_edges: seq![],
            transforms: TransformModel::seeded(),
            has_sdf: false,
            cached_transform_index: None,
            children: seq![],
            clips_children: false,
            inherit: InheritFromParent {
                transform: false,
                color: false,
                sdf_feather: false,
                uv: false,
                clipped: true,
            },
            area_include: None,
            area_exclude: None,
            bounds: Some(None),
            scissor: None,
            text_clip: None,
            custom_material: None,
            dynamic_offsets: seq![],
        }
    }

    /// The transform rows are in order, and the remembered row is one of them;
    /// so are those of all batches below.
    pub open spec fn wf(self) -> bool
        decreases self,
    {
        &&& self.own_wf()
        &&& forall|i: int| 0 <= i < self.children.len() ==> (#[trigger] self.children[i]).wf()
    }

    /// [`BatchModel::wf`] for this batch alone.
    pub open spec fn own_wf(self) -> bool {
        &&& self.transforms.wf()
        &&& self.transforms.count() <= u32::MAX
        &&& self.cached_transform_index is Some ==> self.cached_transform_index->0
            < self.transforms.count()
    }

    /// Whether the batch has shapes of its own.
    pub open spec fn has_geometry(self) -> bool {
        self.vertices.len() > 0 || self.instances.len() > 0
    }

    /// Whether the batch has shapes or texts of its own.
    pub open spec fn has_content(self) -> bool {
        self.has_geometry() || self.texts.len() > 0
    }

    /// Whether the batch or any batch below has shapes or texts.
    pub open spec fn has_drawable_content(self) -> bool
        decreases self,
    {
        self.has_content() || exists|i: int|
            0 <= i < self.children.len() && (#[trigger] self.children[i]).has_drawable_content()
    }

    /// Where the batch is visible; `None` for everywhere.
    pub open spec fn effective_area(self) -> Option<AreaModel> {
        if self.area_include is None && self.area_exclude is None {
            None
        } else {
            Some(crate::area::effective_model(self.area_include, self.area_exclude))
        }
    }

    /// Whether the batch is drawn through an area mask.
    pub open spec fn has_area(self) -> bool {
        self.effective_area() is Some && !(self.effective_area()->0 is Empty)
    }
}

// ---------------------------------------------------------------------------
// Instances as quads
// ---------------------------------------------------------------------------

/// Corner `k` of an instance as a vertex, its transform row moved by `shift`.
pub open spec fn corner_vertex(record: InstanceRecord, k: int, shift: int) -> Vertex {
    let s = record.shape;
    Vertex {
        position: [
            if k == 0 || k == 3 {
                s.bounds[0]
            } else {
                s.bounds[2]
            },
            if k == 0 || k == 1 {
                s.bounds[1]
            } else {
                s.bounds[3]
            },
        ],
        uv: [record.corner_uv[2 * k], record.corner_uv[2 * k + 1]],
        color: s.color,
        sdf_params: s.sdf_params,
        sdf_type: s.sdf_type,
        sdf_feather: s.sdf_feather,
        sdf_extra: s.sdf_extra,
        transform_index: (s.transform_index + shift) as u32,
    }
}

/// The four corners of an instance.
pub open spec fn quad(record: InstanceRecord, shift: int) -> Seq<Vertex> {
    seq![
        corner_vertex(record, 0, shift),
        corner_vertex(record, 1, shift),
        corner_vertex(record, 2, shift),
        corner_vertex(record, 3, shift),
    ]
}

/// The corners of some instances, one instance after the other.
pub open spec fn quads(instances: Seq<InstanceRecord>, shift: int) -> Seq<Vertex>
    decreases instances.len(),
{
    if instances.len() == 0 {
        seq![]
    } else {
        quads(instances.drop_last(), shift) + quad(instances.last(), shift)
    }
}

/// The two triangles of a quad whose corners start at `base`.
pub open spec fn quad_triangles(base: int) -> Seq<u32> {
    seq![
        base as u32,
        (base + 1) as u32,
        (base + 2) as u32,
        base as u32,
        (base + 2) as u32,
        (base + 3) as u32,
    ]
}

/// The triangles of `n` quads in a row, whose corners start at `base`.
pub open spec fn quads_triangles(n: nat, base: int) -> Seq<u32>
    decreases n,
{
    if n == 0 {
        seq![]
    } else {
        quads_triangles((n - 1) as nat, base) + quad_triangles(base + 4 * (n - 1))
    }
}

/// Law: each quad has four corners and six indices.
pub proof fn lemma_quads_len(instances: Seq<InstanceRecord>, shift: int, base: int)
    ensures
        quads(instances, shift).len() == 4 * instances.len(),
        quads_triangles(instances.len(), base).len() == 6 * instances.len(),
    decreases instances.len(),
{
    if instances.len() > 0 {
        lemma_quads_len(instances.drop_last(), shift, base);
    }
}

fn corner(record: &InstanceRecord, k: usize, shift: u32) -> (r: Vertex)
    requires
        k < 4,
        record.shape.transform_index + shift <= u32::MAX,
    ensures
        r == corner_vertex(*record, k as int, shift as int),
{
    let s = record.shape;
    let x: F32Bits = if k == 0 || k == 3 {
        s.bounds[0]
    } else {
        s.bounds[2]
    };
    let y: F32Bits = if k == 0 || k == 1 {
        s.bounds[1]
    } else {
        s.bounds[3]
    };
    Vertex {
        position: [x, y],
        uv: [record.corner_uv[2 * k], record.corner_uv[2 * k + 1]],
        color: s.color,
        sdf_params: s.sdf_params,
        sdf_type: s.sdf_type,
        sdf_feather: s.sdf_feather,
        sdf_extra: s.sdf_extra,
        transform_index: s.transform_index + shift,
    }
}

/// Appends instances as quads: their corners to `vertices`, with their
/// transform rows moved by `shift`, and their triangles to `indices`, counted
/// from `base`.
pub fn push_quads(
    instances: &Vec<InstanceRecord>,
    shift: u32,
    base: u32,
    vertices: &mut Vec<Vertex>,
    indices: &mut Vec<u32>,
)
    requires
        base + 4 * instances.len() <= u32::MAX,
        forall|i: int|
            0 <= i < instances.len() ==> (#[trigger] instances@[i]).shape.transform_index + shift
                <= u32::MAX,
    ensures
        final(vertices)@ == old(vertices)@ + quads(instances@, shift as int),
        final(indices)@ == old(indices)@ + quads_triangles(instances@.len(), base as int),
{
    let ghost v0 = vertices@;
    let ghost i0 = indices@;
    let mut n: usize = 0;
    assert(instances@.take(0) =~= seq![]);
    assert(vertices@ =~= v0 + quads(instances@.take(0), shift as int));
    assert(indices@ =~= i0 + quads_triangles(0, base as int));
    while n < instances.len()
        invariant
            n <= instances.len(),
            base + 4 * instances.len() <= u32::MAX,
            forall|i: int|
                0 <= i < instances.len() ==> (#[trigger] instances@[i]).shape.transform_index
                    + shift <= u32::MAX,
            vertices@ == v0 + quads(instances@.take(n as int), shift as int),
            indices@ == i0 + quads_triangles(n as nat, base as int),
        decreases instances.len() - n,
    {
        let record = instances[n];
        vertices.push(corner(&record, 0, shift));
        vertices.push(corner(&record, 1, shift));
        vertices.push(corner(&record, 2, shift));
        vertices.push(corner(&record, 3, shift));
        let b: u32 = base + 4 * n as u32;
        indices.push(b);
        indices.push(b + 1);
        indices.push(b + 2);
        indices.push(b);
        indices.push(b + 2);
        indices.push(b + 3);
        assert(instances@.take(n + 1).drop_last() =~= instances@.take(n as int));
        assert(vertices@ =~= v0 + quads(instances@.take(n + 1), shift as int));
        assert(indices@ =~= i0 + quads_triangles((n + 1) as nat, base as int));
        n = n + 1;
    }
    assert(instances@.take(n as int) =~= instances@);
}

impl BatchModel {
    /// The batch's own shapes as an area; nothing if it has none.
    pub open spec fn as_area(self) -> AreaModel {
        let geom = GeomModel {
            vertices: self.vertices + quads(self.instances, 0),
            indices: self.indices + quads_triangles(
                self.instances.len(),
                self.vertices.len() as int,
            ),
            transform_table: self.transforms.rows,
            polygon_edges: self.polygon_edges,
            has_sdf: self.has_sdf,
            sdf_feather: self.sdf_feather,
        };
        if (self.vertices.len() == 0 || self.indices.len() == 0) && self.instances.len() == 0 {
            AreaModel::Empty
        } else {
            AreaModel::Geom(geom)
        }
    }
}

impl DrawBatch {
    /// An empty batch.
    pub fn new() -> (r: Self)
        ensures
            r@ == BatchModel::fresh(),
            r@.wf(),
    {
        let r = DrawBatch {
            vertices: Vec::new(),
            indices: Vec::new(),
            texts: Vec::new(),
            bind_group: None,
            text_texture: None,
            texture_segments: Vec::new(),
            instances: Vec::new(),
            instance_texture_segments: Vec::new(),
            transform: None,
            sdf_feather: Some(F32_ONE),
            color: white(),
            uv: UvRect::default(),
            polygon_edges: Vec::new(),
            transforms: TransformTable::new(),
            has_sdf: false,
            cached_transform_index: None,
            children: Vec::new(),
            clips_children: false,
            inherit: InheritFromParent::none(),
            area_include: None,
            area_exclude: None,
            bounds: Some(None),
            scissor: None,
            text_clip: None,
            custom_material: None,
            dynamic_offsets: Vec::new(),
        };
        assert(r@.children =~= seq![]);
        r
    }

    /// Makes the batch empty again, as [`DrawBatch::new`] gives it.
    pub fn clear(&mut self)
        ensures
            final(self)@ == BatchModel::fresh(),
            final(self)@.wf(),
    {
        self.vertices.clear();
        self.indices.clear();
        self.texts.clear();
        self.bind_group = None;
        self.text_texture = None;
        self.texture_segments.clear();
        self.instances.clear();
        self.instance_texture_segments.clear();
        self.transform = None;
        self.sdf_feather = Some(F32_ONE);
        self.color = white();
        self.uv = UvRect::default();
        self.polygon_edges.clear();
        self.transforms.seed_identity();
        self.has_sdf = false;
        self.cached_transform_index = None;
        self.children.clear();
        self.clips_children = false;
        self.inherit = InheritFromParent::none();
        self.area_include = None;
        self.area_exclude = None;
        self.bounds = Some(None);
        self.scissor = None;
        self.text_clip = None;
        self.custom_material = None;
        self.dynamic_offsets.clear();
        assert(self@.children =~= seq![]);
        assert(self@ == BatchModel::fresh());
    }

    /// The batch's own shapes as an area, instances as quads.
    pub fn to_area(&self) -> (r: Area)
        requires
            self@.vertices.len() + 4 * self@.instances.len() <= u32::MAX,
        ensures
            r@ == self@.as_area(),
    {
        if (self.vertices.len() == 0 || self.indices.len() == 0) && self.instances.len() == 0 {
            return Area::Empty;
        }
        let mut vertices = self.vertices.clone();
        let mut indices = self.indices.clone();
        assert(vertices@ =~= self.vertices@);
        assert(indices@ =~= self.indices@);
        push_quads(&self.instances, 0, self.vertices.len() as u32, &mut vertices, &mut indices);
        proof {
            lemma_quads_len(self.instances@, 0, self.vertices@.len() as int);
        }
        let transform_table = self.transforms.rows().clone();
        let polygon_edges = self.polygon_edges.clone();
        assert(transform_table@ =~= self.transforms@.rows);
        assert(polygon_edges@ =~= self.polygon_edges@);
        Area::geom(
            AreaGeom {
                vertices,
                indices,
                transform_table,
                polygon_edges,
                has_sdf: self.has_sdf,
                sdf_feather: self.sdf_feather,
            },
        )
    }

    /// Where the batch is visible: its inclusion (everything, if none) without
    /// its exclusion (nothing, if none); `None` if it has neither.
    pub fn effective_area(&self) -> (r: Option<Area>)
        ensures
            area_view(r) == self@.effective_area(),
    {
        effective_area(self.area_include.as_ref(), self.area_exclude.as_ref())
    }

    /// Whether the batch or any batch below has shapes or texts.
    pub fn has_drawable_content(&self) -> (r: bool)
        ensures
            r == self@.has_drawable_content(),
        decreases self,
    {
        proof {
            lemma_models(self.children@, self.children@.len());
        }
        if self.vertices.len() > 0 || self.instances.len() > 0 || self.texts.len() > 0 {
            return true;
        }
        let mut i: usize = 0;
        while i < self.children.len()
            invariant
                i <= self.children.len(),
                self@.children.len() == self.children.len(),
                forall|j: int|
                    0 <= j < self.children.len() ==> (#[trigger] self@.children[j])
                        == self.children@[j]@,
                forall|j: int| 0 <= j < i ==> !(#[trigger] self@.children[j]).has_drawable_content(),
                !self@.has_content(),
            decreases self.children.len() - i,
        {
            if self.children[i].has_drawable_content() {
                assert(self@.children[i as int].has_drawable_content());
                return true;
            }
            i = i + 1;
        }
        false
    }
}

// ---------------------------------------------------------------------------
// The brush
// ---------------------------------------------------------------------------

/// The brush transform, or the identity if there is none.
pub open spec fn brush_or_identity(t: Option<Transform>) -> Transform {
    match t {
        Some(t) => t,
        None => Transform::spec_identity(),
    }
}

impl DrawBatch {
    fn brush_transform(&self) -> (r: Transform)
        ensures
            r == brush_or_identity(self.transform),
    {
        match self.transform {
            Some(t) => t,
            None => Transform::identity(),
        }
    }

    /// Sets the brush colour.
    pub fn set_color(&mut self, color: ColorBits)
        ensures
            final(self)@ == (BatchModel { color, ..old(self)@ }),
    {
        self.color = color;
    }

    /// Replaces the brush transform.
    pub fn set_transform(&mut self, t: Transform)
        ensures
            final(self)@ == (BatchModel {
                transform: Some(t),
                cached_transform_index: None,
                ..old(self)@
            }),
    {
        self.transform = Some(t);
        self.cached_transform_index = None;
    }

    /// Moves the brush's local origin to `(x, y)`.
    pub fn set_position(&mut self, x: F32Bits, y: F32Bits)
        ensures
            final(self)@ == (BatchModel {
                transform: Some(Transform { x, y, ..brush_or_identity(old(self).transform) }),
                cached_transform_index: None,
                ..old(self)@
            }),
    {
        let t = self.brush_transform();
        self.set_transform(Transform { x, y, ..t });
    }

    /// Sets the local centre of rotation and scaling.
    pub fn set_pivot(&mut self, px: F32Bits, py: F32Bits)
        ensures
            final(self)@ == (BatchModel {
                transform: Some(Transform { px, py, ..brush_or_identity(old(self).transform) }),
                cached_transform_index: None,
                ..old(self)@
            }),
    {
        let t = self.brush_transform();
        self.set_transform(Transform { px, py, ..t });
    }

    /// Sets the brush transform to the matrix `[a b tx; c d ty; 0 0 1]`.
    pub fn set_matrix(
        &mut self,
        a: F32Bits,
        b: F32Bits,
        c: F32Bits,
        d: F32Bits,
        tx: F32Bits,
        ty: F32Bits,
    )
        ensures
            final(self)@ == (BatchModel {
                transform: Some(Transform { a, b, c, d, x: tx, y: ty, px: 0, py: 0 }),
                cached_transform_index: None,
                ..old(self)@
            }),
    {
        self.set_transform(Transform::matrix(a, b, c, d, tx, ty));
    }

    /// Removes the brush transform.
    pub fn clear_transform(&mut self)
        ensures
            final(self)@ == (BatchModel {
                transform: None,
                cached_transform_index: None,
                ..old(self)@
            }),
    {
        self.transform = None;
        self.cached_transform_index = None;
    }

    /// Sets the texture part of shapes drawn from now on.
    pub fn set_uv(&mut self, u0: F32Bits, v0: F32Bits, u1: F32Bits, v1: F32Bits)
        ensures
            final(self)@ == (BatchModel { uv: UvRect { u0, v0, u1, v1 }, ..old(self)@ }),
    {
        self.uv = UvRect { u0, v0, u1, v1 };
    }

    /// Goes back to the whole texture.
    pub fn clear_uv(&mut self)
        ensures
            final(self)@ == (BatchModel {
                uv: UvRect { u0: 0, v0: 0, u1: F32_ONE, v1: F32_ONE },
                ..old(self)@
            }),
    {
        self.uv = UvRect::default();
    }

    /// Registers a matrix and remembers its row as that of the brush.
    pub fn register_transform(&mut self, m: Affine) -> (r: u32)
        requires
            old(self)@.own_wf(),
            old(self)@.transforms.count() < u32::MAX,
        ensures
            r == old(self)@.transforms.slot(m),
            final(self)@ == (BatchModel {
                transforms: old(self)@.transforms.registered(m),
                cached_transform_index: Some(r),
                ..old(self)@
            }),
            final(self)@.own_wf(),
    {
        let r: u32 = self.transforms.register(m);
        self.cached_transform_index = Some(r);
        r
    }

    /// The row of the brush transform: the remembered one, or else that of
    /// `current`, the brush transform as a matrix.
    pub fn current_transform_index(&mut self, current: Affine) -> (r: u32)
        requires
            old(self)@.own_wf(),
            old(self)@.room_for_brush(),
        ensures
            r == old(self)@.brush_slot(current),
            final(self)@ == old(self)@.with_brush_slot(current),
            final(self)@.own_wf(),
            r < final(self)@.transforms.count(),
    {
        match self.cached_transform_index {
            Some(r) => r,
            None => self.register_transform(current),
        }
    }

    /// Notes that the batch has distance field shapes.
    pub fn note_sdf(&mut self)
        ensures
            final(self)@ == (BatchModel { has_sdf: true, ..old(self)@ }),
    {
        self.has_sdf = true;
    }

    /// Adds a plain vertex in the brush's row.
    pub fn push_vertex(&mut self, x: F32Bits, y: F32Bits, color: ColorBits, current: Affine)
        requires
            old(self)@.own_wf(),
            old(self)@.room_for_brush(),
        ensures
            final(self)@ == (BatchModel {
                vertices: old(self)@.vertices.push(
                    Vertex::spec_uv(x, y, 0, 0, color, old(self)@.brush_slot(current)),
                ),
                ..old(self)@.with_brush_slot(current)
            }),
            final(self)@.own_wf(),
    {
        self.push_vertex_uv(x, y, 0, 0, color, current);
    }

    /// Adds a vertex with texture coordinates in the brush's row.
    pub fn push_vertex_uv(
        &mut self,
        x: F32Bits,
        y: F32Bits,
        u: F32Bits,
        v: F32Bits,
        color: ColorBits,
        current: Affine,
    )
        requires
            old(self)@.own_wf(),
            old(self)@.room_for_brush(),
        ensures
            final(self)@ == (BatchModel {
                vertices: old(self)@.vertices.push(
                    Vertex::spec_uv(x, y, u, v, color, old(self)@.brush_slot(current)),
                ),
                ..old(self)@.with_brush_slot(current)
            }),
            final(self)@.own_wf(),
    {
        let index: u32 = self.current_transform_index(current);
        self.vertices.push(Vertex::new_uv_xform(x, y, u, v, color, index));
    }

    /// Adds a vertex of a distance field shape in the brush's row.
    pub fn push_sdf_vertex(
        &mut self,
        x: F32Bits,
        y: F32Bits,
        u: F32Bits,
        v: F32Bits,
        color: ColorBits,
        params: [F32Bits; 4],
        ty: u32,
        feather: F32Bits,
        current: Affine,
    )
        requires
            old(self)@.own_wf(),
            old(self)@.room_for_brush(),
        ensures
            final(self)@ == (BatchModel {
                vertices: old(self)@.vertices.push(
                    Vertex {
                        sdf_params: params,
                        sdf_type: ty,
                        sdf_feather: feather,
                        ..Vertex::spec_uv(x, y, u, v, color, old(self)@.brush_slot(current))
                    },
                ),
                has_sdf: true,
                ..old(self)@.with_brush_slot(current)
            }),
            final(self)@.own_wf(),
    {
        let index: u32 = self.current_transform_index(current);
        let vert = Vertex::new_uv_xform(x, y, u, v, color, index);
        self.has_sdf = true;
        self.vertices.push(
            Vertex { sdf_params: params, sdf_type: ty, sdf_feather: feather, ..vert },
        );
    }

    /// Adds a text in the brush's row.
    pub fn push_text(&mut self, id: u32, current: Affine)
        requires
            old(self)@.own_wf(),
            old(self)@.room_for_brush(),
        ensures
            final(self)@ == (BatchModel {
                texts: old(self)@.texts.push(
                    TextEntry { id, transform_index: old(self)@.brush_slot(current) },
                ),
                ..old(self)@.with_brush_slot(current)
            }),
            final(self)@.own_wf(),
    {
        let transform_index: u32 = self.current_transform_index(current);
        self.texts.push(TextEntry { id, transform_index });
    }
}

impl BatchModel {
    /// There is a row for the brush, or room for one.
    pub open spec fn room_for_brush(self) -> bool {
        self.cached_transform_index is None ==> self.transforms.count() < u32::MAX
    }

    /// The row of the brush transform `current`, remembered or registered.
    pub open spec fn brush_slot(self, current: Affine) -> u32 {
        match self.cached_transform_index {
            Some(r) => r,
            None => self.transforms.slot(current),
        }
    }

    /// The batch after its brush's row was asked for.
    pub open spec fn with_brush_slot(self, current: Affine) -> BatchModel {
        match self.cached_transform_index {
            Some(_) => self,
            None => BatchModel {
                transforms: self.transforms.registered(current),
                cached_transform_index: Some(self.transforms.slot(current)),
                ..self
            },
        }
    }
}

// ---------------------------------------------------------------------------
// Texture runs
// ---------------------------------------------------------------------------

/// Where the last run ends.
pub open spec fn segments_end(segments: Seq<TextureSegment>) -> int {
    if segments.len() == 0 {
        0
    } else {
        segments.last().start + segments.last().count
    }
}

/// The runs follow each other from 0 without gaps, none of them empty, and end
/// at `len` or before.
pub open spec fn segments_tile(segments: Seq<TextureSegment>, len: int) -> bool {
    &&& forall|i: int| 0 <= i < segments.len() ==> (#[trigger] segments[i]).count > 0
    &&& forall|i: int|
        0 <= i < segments.len() ==> (#[trigger] segments[i]).start == segments_end(
            segments.take(i),
        )
    &&& segments_end(segments) <= len
}

/// The runs with what was drawn since the last one, up to `len`, as a run of
/// its own.
pub open spec fn sealed(
    segments: Seq<TextureSegment>,
    len: int,
    bind_group: Option<u32>,
) -> Seq<TextureSegment> {
    let start = segments_end(segments);
    if len > start {
        segments.push(TextureSegment { start: start as u32, count: (len - start) as u32, bind_group })
    } else {
        segments
    }
}

/// Law: sealing keeps the runs without gaps and brings them up to `len`.
pub proof fn lemma_sealed_tiles(segments: Seq<TextureSegment>, len: int, bind_group: Option<u32>)
    requires
        segments_tile(segments, len),
        len <= u32::MAX,
    ensures
        segments_tile(sealed(segments, len, bind_group), len),
        segments_end(sealed(segments, len, bind_group)) == len,
{
    let after = sealed(segments, len, bind_group);
    if len > segments_end(segments) {
        assert forall|i: int| 0 <= i < after.len() implies (#[trigger] after[i]).start
            == segments_end(after.take(i)) by {
            if i < segments.len() {
                assert(after.take(i) =~= segments.take(i));
                assert(after[i] == segments[i]);
            } else {
                assert(after.take(i) =~= segments);
            }
        }
    }
}

fn seal(segments: &mut Vec<TextureSegment>, len: usize, bind_group: Option<u32>)
    requires
        len <= u32::MAX,
        segments_end(old(segments)@) <= u32::MAX,
    ensures
        final(segments)@ == sealed(old(segments)@, len as int, bind_group),
{
    let start: u32 = if segments.len() == 0 {
        0
    } else {
        let last = segments[segments.len() - 1];
        last.start + last.count
    };
    let end: u32 = len as u32;
    if end > start {
        segments.push(TextureSegment { start, count: end - start, bind_group });
    }
}

impl BatchModel {
    /// Sizes and runs stay within what 32 bits can count.
    pub open spec fn counts_fit(self) -> bool {
        &&& self.indices.len() <= u32::MAX
        &&& self.instances.len() <= u32::MAX
        &&& segments_end(self.texture_segments) <= u32::MAX
        &&& segments_end(self.instance_texture_segments) <= u32::MAX
    }

    /// The batch with all shapes so far bound to the texture they were drawn
    /// with.
    pub open spec fn with_shapes_sealed(self) -> BatchModel {
        BatchModel {
            texture_segments: sealed(
                self.texture_segments,
                self.indices.len() as int,
                self.bind_group,
            ),
            instance_texture_segments: sealed(
                self.instance_texture_segments,
                self.instances.len() as int,
                self.bind_group,
            ),
            ..self
        }
    }
}

impl DrawBatch {
    /// Makes what was drawn since the last run of indices a run with texture
    /// `bind_group`.
    pub fn add_texture_segment(&mut self, bind_group: Option<u32>)
        requires
            old(self)@.counts_fit(),
        ensures
            final(self)@ == (BatchModel {
                texture_segments: sealed(
                    old(self)@.texture_segments,
                    old(self)@.indices.len() as int,
                    bind_group,
                ),
                ..old(self)@
            }),
    {
        let n: usize = self.indices.len();
        seal(&mut self.texture_segments, n, bind_group);
    }

    /// Makes what was drawn since the last run of instances a run with texture
    /// `bind_group`.
    pub fn add_instance_texture_segment(&mut self, bind_group: Option<u32>)
        requires
            old(self)@.counts_fit(),
        ensures
            final(self)@ == (BatchModel {
                instance_texture_segments: sealed(
                    old(self)@.instance_texture_segments,
                    old(self)@.instances.len() as int,
                    bind_group,
                ),
                ..old(self)@
            }),
    {
        let n: usize = self.instances.len();
        seal(&mut self.instance_texture_segments, n, bind_group);
    }

    /// Sets the texture of shapes drawn from now on; what was drawn keeps its
    /// texture. Texts drawn from now on have none.
    pub fn set_bind_group(&mut self, bind_group: Option<u32>)
        requires
            old(self)@.counts_fit(),
        ensures
            final(self)@ == (BatchModel {
                bind_group,
                text_texture: None,
                ..old(self)@.with_shapes_sealed()
            }),
    {
        let current = self.bind_group;
        self.add_texture_segment(current);
        self.add_instance_texture_segment(current);
        self.bind_group = bind_group;
        self.text_texture = None;
    }

    /// Sets the texture of shapes and texts drawn from now on; what was drawn
    /// keeps its texture.
    pub fn set_texture(&mut self, texture: Option<u32>)
        requires
            old(self)@.counts_fit(),
        ensures
            final(self)@ == (BatchModel {
                bind_group: texture,
                text_texture: texture,
                ..old(self)@.with_shapes_sealed()
            }),
    {
        let current = self.bind_group;
        self.add_texture_segment(current);
        self.add_instance_texture_segment(current);
        self.bind_group = texture;
        self.text_texture = texture;
    }
}

// ---------------------------------------------------------------------------
// Instances
// ---------------------------------------------------------------------------

/// How a shape that could be an instance is drawn.
#[derive(Clone, Copy, Debug, PartialEq, Eq, Structural)]
pub enum ShapeRoute {
    /// As a mesh of vertices.
    Mesh,
    /// Not at all: it is fully transparent.
    Skip,
    /// As an instance.
    Instance,
}

/// The shape of an instance, apart from its place in the batch.
#[derive(Clone, Copy, Debug)]
pub struct InstanceShape {
    pub bounds: [F32Bits; 4],
    pub uv_bounds: [F32Bits; 4],
    pub corner_uv: [F32Bits; 8],
    pub sdf_params: [F32Bits; 4],
    pub sdf_type: u32,
    pub sdf_extra: [F32Bits; 2],
}

impl BatchModel {
    /// The colour a shape is drawn with: its own, or the brush's.
    pub open spec fn shape_color(self, color: Option<ColorBits>) -> ColorBits {
        match color {
            Some(c) => c,
            None => self.color,
        }
    }

    /// Whether the batch draws shapes as instances.
    pub open spec fn draws_instances(self) -> bool {
        self.sdf_feather is Some && self.custom_material is None
    }

    /// Whether nothing would be seen of the shape: it is fully transparent or
    /// has no width or no height.
    pub open spec fn shape_invisible(self, shape: InstanceShape, color: Option<ColorBits>) -> bool {
        ||| crate::vertex::spec_f32_eq(self.shape_color(color)[3], 0)
        ||| crate::vertex::spec_f32_eq(shape.bounds[0], shape.bounds[2])
        ||| crate::vertex::spec_f32_eq(shape.bounds[1], shape.bounds[3])
    }

    /// The record of a shape drawn in the row of `place`.
    pub open spec fn instance_record(
        self,
        shape: InstanceShape,
        color: Option<ColorBits>,
        place: Affine,
    ) -> InstanceRecord {
        InstanceRecord {
            shape: ShapeInstance {
                bounds: shape.bounds,
                uv_bounds: shape.uv_bounds,
                uv_rect: [self.uv.u0, self.uv.v0, self.uv.u1, self.uv.v1],
                color: self.shape_color(color),
                sdf_params: shape.sdf_params,
                sdf_extra: shape.sdf_extra,
                sdf_type: shape.sdf_type,
                sdf_feather: self.sdf_feather->0,
                transform_index: self.transforms.slot(place),
            },
            corner_uv: shape.corner_uv,
        }
    }

    /// The batch after a shape was offered to it as an instance.
    pub open spec fn with_instance(
        self,
        shape: InstanceShape,
        color: Option<ColorBits>,
        place: Affine,
    ) -> BatchModel {
        if !self.draws_instances() || self.shape_invisible(shape, color) {
            self
        } else {
            BatchModel {
                instances: self.instances.push(self.instance_record(shape, color, place)),
                transforms: self.transforms.registered(place),
                has_sdf: true,
                ..self
            }
        }
    }
}

impl DrawBatch {
    fn color_or_brush(&self, color: Option<ColorBits>) -> (r: ColorBits)
        ensures
            r == self@.shape_color(color),
    {
        match color {
            Some(c) => c,
            None => self.color,
        }
    }

    /// Adds a shape as an instance, placed by the matrix `place`. Gives `false`,
    /// and adds nothing, if the batch draws meshes only; adds nothing either if
    /// nothing would be seen of the shape. The remembered row of the brush
    /// stays.
    pub fn push_sdf_instance(
        &mut self,
        shape: InstanceShape,
        color: Option<ColorBits>,
        place: Affine,
    ) -> (r: bool)
        requires
            old(self)@.own_wf(),
            old(self)@.transforms.count() < u32::MAX,
        ensures
            r == old(self)@.draws_instances(),
            final(self)@ == old(self)@.with_instance(shape, color, place),
            final(self)@.own_wf(),
    {
        let feather: F32Bits = match self.sdf_feather {
            Some(f) => f,
            None => {
                return false;
            },
        };
        if self.custom_material.is_some() {
            return false;
        }
        let color = self.color_or_brush(color);
        if f32_eq(color[3], 0) || f32_eq(shape.bounds[0], shape.bounds[2]) || f32_eq(
            shape.bounds[1],
            shape.bounds[3],
        ) {
            return true;
        }
        let transform_index: u32 = self.transforms.register(place);
        self.instances.push(
            InstanceRecord {
                shape: ShapeInstance {
                    bounds: shape.bounds,
                    uv_bounds: shape.uv_bounds,
                    uv_rect: [self.uv.u0, self.uv.v0, self.uv.u1, self.uv.v1],
                    color,
                    sdf_params: shape.sdf_params,
                    sdf_extra: shape.sdf_extra,
                    sdf_type: shape.sdf_type,
                    sdf_feather: feather,
                    transform_index,
                },
                corner_uv: shape.corner_uv,
            },
        );
        self.note_sdf();
        true
    }

    /// How a polygon of `points` corners is drawn.
    pub fn polygon_route(&self, points: usize, color: Option<ColorBits>) -> (r: ShapeRoute)
        ensures
            r == (if !self@.draws_instances() || points < 3 {
                ShapeRoute::Mesh
            } else if crate::vertex::spec_f32_eq(self@.shape_color(color)[3], 0) {
                ShapeRoute::Skip
            } else {
                ShapeRoute::Instance
            }),
    {
        if self.sdf_feather.is_none() || self.custom_material.is_some() || points < 3 {
            ShapeRoute::Mesh
        } else if f32_eq(self.color_or_brush(color)[3], 0) {
            ShapeRoute::Skip
        } else {
            ShapeRoute::Instance
        }
    }

    /// How a chain of lines through `points` points is drawn.
    pub fn line_chain_route(
        &self,
        points: usize,
        thickness: F32Bits,
        color: Option<ColorBits>,
    ) -> (r: ShapeRoute)
        ensures
            r == (if !self@.draws_instances() || points < 2 || crate::vertex::spec_f32_eq(
                thickness,
                0,
            ) {
                ShapeRoute::Mesh
            } else if crate::vertex::spec_f32_eq(self@.shape_color(color)[3], 0) {
                ShapeRoute::Skip
            } else {
                ShapeRoute::Instance
            }),
    {
        if self.sdf_feather.is_none() || self.custom_material.is_some() || points < 2 || f32_eq(
            thickness,
            0,
        ) {
            ShapeRoute::Mesh
        } else if f32_eq(self.color_or_brush(color)[3], 0) {
            ShapeRoute::Skip
        } else {
            ShapeRoute::Instance
        }
    }

    /// The number that the next edge will have.
    pub fn next_edge(&self) -> (r: usize)
        ensures
            r == self@.polygon_edges.len() / 4,
    {
        self.polygon_edges.len() / 4
    }

    /// Adds a shape that is made of edges, four numbers each, as an instance.
    /// With fewer than `least` edges nothing is added; where the batch draws
    /// meshes only, nothing either.
    pub fn push_edge_instance(
        &mut self,
        edges: &Vec<F32Bits>,
        least: usize,
        shape: InstanceShape,
        color: Option<ColorBits>,
        place: Affine,
    ) -> (r: bool)
        requires
            old(self)@.own_wf(),
            old(self)@.transforms.count() < u32::MAX,
        ensures
            r == (old(self)@.draws_instances() || edges@.len() / 4 < least),
            final(self)@ == (if edges@.len() / 4 < least || !old(self)@.draws_instances() {
                old(self)@
            } else {
                BatchModel {
                    polygon_edges: old(self)@.polygon_edges + edges@,
                    ..old(self)@.with_instance(shape, color, place)
                }
            }),
            final(self)@.own_wf(),
    {
        if edges.len() / 4 < least {
            return true;
        }
        let r = self.push_sdf_instance(shape, color, place);
        if r {
            let ghost before = self.polygon_edges@;
            let mut i: usize = 0;
            let ghost start = *self;
            while i < edges.len()
                invariant
                    i <= edges.len(),
                    self.polygon_edges@ == before + edges@.take(i as int),
                    self@ == (BatchModel { polygon_edges: self.polygon_edges@, ..start@ }),
                    before == start.polygon_edges@,
                decreases edges.len() - i,
            {
                let ghost prev = *self;
                self.polygon_edges.push(edges[i]);
                assert(self@ == (BatchModel { polygon_edges: self.polygon_edges@, ..prev@ }));
                assert(self.polygon_edges@ =~= before + edges@.take(i + 1));
                i = i + 1;
            }
            assert(edges@.take(i as int) =~= edges@);
        }
        r
    }
}

/// The lines of a chain through `points` points: from each point to the next,
/// and, if the chain is closed (its last point repeats its first), from the
/// last distinct point back to the first.
pub open spec fn chain_lines(points: int, closed: bool) -> Seq<(usize, usize)> {
    if closed {
        Seq::new(
            (points - 1) as nat,
            |i: int|
                (
                    i as usize,
                    if i + 1 < points - 1 {
                        (i + 1) as usize
                    } else {
                        0
                    },
                ),
        )
    } else {
        Seq::new((points - 1) as nat, |i: int| (i as usize, (i + 1) as usize))
    }
}

/// The lines of a chain, each as the numbers of its two points.
pub fn line_chain_segments(points: usize, closed: bool) -> (r: Vec<(usize, usize)>)
    requires
        points >= 2,
    ensures
        r@ == chain_lines(points as int, closed),
{
    let distinct: usize = if closed {
        points - 1
    } else {
        points
    };
    let count: usize = if closed {
        distinct
    } else {
        distinct - 1
    };
    let mut r: Vec<(usize, usize)> = Vec::new();
    let mut i: usize = 0;
    while i < count
        invariant
            i <= count,
            count == points - 1,
            points >= 2,
            distinct == if closed {
                points - 1
            } else {
                points as int
            },
            r@ == chain_lines(points as int, closed).take(i as int),
        decreases count - i,
    {
        let next: usize = if i + 1 < distinct {
            i + 1
        } else {
            0
        };
        r.push((i, next));
        assert(r@ =~= chain_lines(points as int, closed).take(i + 1));
        i = i + 1;
    }
    assert(chain_lines(points as int, closed).take(i as int) =~= chain_lines(
        points as int,
        closed,
    ));
    r
}

// ---------------------------------------------------------------------------
// Overrides for one shape
// ---------------------------------------------------------------------------

/// Attributes for one shape in place of the brush's; `None` keeps the brush's.
#[derive(Clone, Copy, Debug)]
pub struct ShapeOverride {
    pub color: Option<ColorBits>,
    /// `Some(None)` for plain geometry.
    pub sdf_feather: Option<Option<F32Bits>>,
    pub uv: Option<UvRect>,
    /// The whole transform of the shape, the brush's worked in where it counts.
    pub transform: Option<Transform>,
    /// `Some(None)` for the white texture.
    pub bind_group: Option<Option<u32>>,
}

/// The brush before an override.
#[derive(Clone, Copy, Debug)]
pub struct SavedBrush {
    pub color: ColorBits,
    pub sdf_feather: Option<F32Bits>,
    pub uv: UvRect,
    pub transform: Option<Transform>,
    pub cached_transform_index: Option<u32>,
    pub bind_group: Option<u32>,
    /// Whether the override has a texture of its own.
    pub texture_overridden: bool,
    /// Whether the shape may be an instance.
    pub instanced: bool,
}

impl BatchModel {
    /// The batch with what was drawn so far bound to its texture: indices, and
    /// instances too if `instanced`.
    pub open spec fn with_run_sealed(self, instanced: bool) -> BatchModel {
        if instanced {
            self.with_shapes_sealed()
        } else {
            BatchModel {
                texture_segments: sealed(
                    self.texture_segments,
                    self.indices.len() as int,
                    self.bind_group,
                ),
                ..self
            }
        }
    }

    /// The batch while an override is on.
    pub open spec fn overridden(self, opts: ShapeOverride, instanced: bool) -> BatchModel {
        let textured = if opts.bind_group is Some {
            BatchModel { bind_group: opts.bind_group->0, ..self.with_run_sealed(instanced) }
        } else {
            self
        };
        BatchModel {
            color: match opts.color {
                Some(c) => c,
                None => self.color,
            },
            sdf_feather: match opts.sdf_feather {
                Some(f) => f,
                None => self.sdf_feather,
            },
            uv: match opts.uv {
                Some(uv) => uv,
                None => self.uv,
            },
            transform: match opts.transform {
                Some(t) => Some(t),
                None => self.transform,
            },
            cached_transform_index: match opts.transform {
                Some(_) => None,
                None => self.cached_transform_index,
            },
            ..textured
        }
    }

    /// The brush as an override finds it.
    pub open spec fn brush(self, opts: ShapeOverride, instanced: bool) -> SavedBrush {
        SavedBrush {
            color: self.color,
            sdf_feather: self.sdf_feather,
            uv: self.uv,
            transform: self.transform,
            cached_transform_index: self.cached_transform_index,
            bind_group: self.bind_group,
            texture_overridden: opts.bind_group is Some,
            instanced,
        }
    }

    /// The batch after the override is off: what was drawn under it keeps its
    /// texture, and the brush is as it was.
    pub open spec fn restored(self, saved: SavedBrush) -> BatchModel {
        let textured = if saved.texture_overridden {
            self.with_run_sealed(saved.instanced)
        } else {
            self
        };
        BatchModel {
            color: saved.color,
            sdf_feather: saved.sdf_feather,
            uv: saved.uv,
            transform: saved.transform,
            cached_transform_index: saved.cached_transform_index,
            bind_group: if saved.texture_overridden || saved.instanced {
                saved.bind_group
            } else {
                self.bind_group
            },
            ..textured
        }
    }
}

impl DrawBatch {
    /// Puts an override on for one shape; [`DrawBatch::end_override`] takes it
    /// off with what this gives.
    pub fn begin_override(&mut self, opts: ShapeOverride, instanced: bool) -> (r: SavedBrush)
        requires
            old(self)@.counts_fit(),
        ensures
            r == old(self)@.brush(opts, instanced),
            final(self)@ == old(self)@.overridden(opts, instanced),
    {
        let saved = SavedBrush {
            color: self.color,
            sdf_feather: self.sdf_feather,
            uv: self.uv,
            transform: self.transform,
            cached_transform_index: self.cached_transform_index,
            bind_group: self.bind_group,
            texture_overridden: opts.bind_group.is_some(),
            instanced,
        };
        if let Some(c) = opts.color {
            self.color = c;
        }
        if let Some(f) = opts.sdf_feather {
            self.sdf_feather = f;
        }
        if let Some(uv) = opts.uv {
            self.uv = uv;
        }
        if let Some(t) = opts.transform {
            self.set_transform(t);
        }
        if let Some(bind_group) = opts.bind_group {
            let current = self.bind_group;
            self.add_texture_segment(current);
            if instanced {
                self.add_instance_texture_segment(current);
            }
            self.bind_group = bind_group;
        }
        saved
    }

    /// Takes an override off.
    pub fn end_override(&mut self, saved: SavedBrush)
        requires
            old(self)@.counts_fit(),
        ensures
            final(self)@ == old(self)@.restored(saved),
    {
        if saved.texture_overridden {
            let current = self.bind_group;
            self.add_texture_segment(current);
            if saved.instanced {
                self.add_instance_texture_segment(current);
            }
        }
        if saved.texture_overridden || saved.instanced {
            self.bind_group = saved.bind_group;
        }
        self.color = saved.color;
        self.sdf_feather = saved.sdf_feather;
        self.uv = saved.uv;
        self.transform = saved.transform;
        self.cached_transform_index = saved.cached_transform_index;
    }
}

/// Law: whatever is drawn under an override, taking it off brings the whole
/// brush back: colour, feather, texture part, transform and its row, and the
/// texture if the override had one or the shape could be an instance.
pub proof fn lemma_override_restores_brush(
    before: BatchModel,
    drawn: BatchModel,
    opts: ShapeOverride,
    instanced: bool,
)
    ensures
        ({
            let after = drawn.restored(before.brush(opts, instanced));
            &&& after.color == before.color
            &&& after.sdf_feather == before.sdf_feather
            &&& after.uv == before.uv
            &&& after.transform == before.transform
            &&& after.cached_transform_index == before.cached_transform_index
            &&& opts.bind_group is Some || instanced ==> after.bind_group == before.bind_group
            &&& after.vertices == drawn.vertices
            &&& after.indices == drawn.indices
            &&& after.instances == drawn.instances
        }),
{
}

// ---------------------------------------------------------------------------
// The tree
// ---------------------------------------------------------------------------

/// `after` is `before` with every transform of its subtree multiplied by `by`
/// from the left: `mul` computes the products of rows, `then` those of brush
/// transforms.
pub open spec fn tree_multiplied<
    F: Fn(Transform, Affine) -> Affine,
    G: Fn(Transform, Transform) -> Transform,
>(before: BatchModel, after: BatchModel, by: Transform, mul: F, then: G) -> bool
    decreases before,
{
    &&& after == (BatchModel {
        transforms: after.transforms,
        transform: after.transform,
        cached_transform_index: None,
        children: after.children,
        ..before
    })
    &&& after.transforms.wf()
    &&& crate::transform_table::rows_multiplied(before.transforms, after.transforms, by, mul)
    &&& after.transform is Some
    &&& call_ensures(then, (by, brush_or_identity(before.transform)), after.transform->0)
    &&& after.children.len() == before.children.len()
    &&& forall|i: int|
        0 <= i < before.children.len() ==> tree_multiplied(
            #[trigger] before.children[i],
            after.children[i],
            by,
            mul,
            then,
        )
}

/// `after` is the child `before` with what its flags name taken over from
/// `parent`.
pub open spec fn inherited<
    F: Fn(Transform, Affine) -> Affine,
    G: Fn(Transform, Transform) -> Transform,
>(parent: BatchModel, before: BatchModel, after: BatchModel, mul: F, then: G) -> bool {
    let flags = before.inherit;
    let brushed = BatchModel {
        color: if flags.color {
            parent.color
        } else {
            before.color
        },
        sdf_feather: if flags.sdf_feather {
            parent.sdf_feather
        } else {
            before.sdf_feather
        },
        uv: if flags.uv {
            parent.uv
        } else {
            before.uv
        },
        ..before
    };
    if flags.transform {
        tree_multiplied(brushed, after, brush_or_identity(parent.transform), mul, then)
    } else {
        after == brushed
    }
}

impl DrawBatch {
    /// Multiplies every transform of the subtree by `by` from the left: the
    /// rows, row 0 among them, and the brush transforms. `mul` and `then`
    /// compute the products.
    pub fn left_mul_transform_tree<
        F: Fn(Transform, Affine) -> Affine,
        G: Fn(Transform, Transform) -> Transform,
    >(&mut self, by: Transform, mul: &F, then: &G)
        requires
            old(self)@.wf(),
            forall|m: Affine| call_requires(*mul, (by, m)),
            forall|t: Transform| call_requires(*then, (by, t)),
        ensures
            tree_multiplied(old(self)@, final(self)@, by, *mul, *then),
            final(self)@.wf(),
        decreases *old(self),
    {
        let ghost before = *self;
        proof {
            lemma_models(self.children@, self.children@.len());
        }
        self.transforms.multiply_rows(by, mul);
        let local = self.brush_transform();
        self.transform = Some(then(by, local));
        self.cached_transform_index = None;
        let ghost mid = *self;
        let n: usize = self.children.len();
        let mut i: usize = 0;
        while i < n
            invariant
                i <= n,
                n == before.children@.len(),
                n == self.children@.len(),
                before == *old(self),
                before@.wf(),
                mid.children == before.children,
                before@.children.len() == n,
                forall|j: int| 0 <= j < n ==> (#[trigger] before@.children[j]) == before.children@[j]@,
                forall|m: Affine| call_requires(*mul, (by, m)),
                forall|t: Transform| call_requires(*then, (by, t)),
                forall|j: int| i <= j < n ==> self.children@[j] == before.children@[j],
                forall|j: int|
                    0 <= j < i ==> tree_multiplied(
                        #[trigger] before@.children[j],
                        self.children@[j]@,
                        by,
                        *mul,
                        *then,
                    ) && self.children@[j]@.wf(),
                *self == (DrawBatch { children: self.children, ..mid }),
            decreases n - i,
        {
            assert(before@.children[i as int].wf());
            assert(decreases_to!(before => before.children));
            assert(decreases_to!(before.children@ => before.children@[i as int]));
            self.children[i].left_mul_transform_tree(by, mul, then);
            i = i + 1;
        }
        proof {
            lemma_models(self.children@, self.children@.len());
            assert forall|j: int| 0 <= j < n implies (#[trigger] self@.children[j]).wf() by {
                assert(tree_multiplied(
                    before@.children[j],
                    self.children@[j]@,
                    by,
                    *mul,
                    *then,
                ));
            }
            assert(self@.own_wf());
        }
    }

    /// Takes over from `parent` what the flags of this batch name.
    fn apply_inherit_from<
        F: Fn(Transform, Affine) -> Affine,
        G: Fn(Transform, Transform) -> Transform,
    >(&mut self, parent: &DrawBatch, mul: &F, then: &G)
        requires
            old(self)@.wf(),
            forall|t: Transform, m: Affine| call_requires(*mul, (t, m)),
            forall|t: Transform, u: Transform| call_requires(*then, (t, u)),
        ensures
            inherited(parent@, old(self)@, final(self)@, *mul, *then),
            final(self)@.wf(),
    {
        let flags = self.inherit;
        if flags.color {
            self.color = parent.color;
        }
        if flags.sdf_feather {
            self.sdf_feather = parent.sdf_feather;
        }
        if flags.uv {
            self.uv = parent.uv;
        }
        if flags.transform {
            let by = parent.brush_transform();
            self.left_mul_transform_tree(by, mul, then);
        }
    }

    /// Appends a child, which first takes over from this batch what its flags
    /// name; a taken over transform goes into its whole subtree. `mul` and
    /// `then` compute products of transforms.
    pub fn push_child<
        F: Fn(Transform, Affine) -> Affine,
        G: Fn(Transform, Transform) -> Transform,
    >(&mut self, child: DrawBatch, mul: &F, then: &G)
        requires
            child@.wf(),
            forall|t: Transform, m: Affine| call_requires(*mul, (t, m)),
            forall|t: Transform, u: Transform| call_requires(*then, (t, u)),
        ensures
            child_pushed(old(self)@, final(self)@, child@, *mul, *then),
            old(self)@.wf() ==> final(self)@.wf(),
    {
        let ghost before = *self;
        let mut child = child;
        let ghost given = child@;
        if child.inherit.any() {
            child.apply_inherit_from(self, mul, then);
        }
        let ghost pushed = child@;
        self.children.push(child);
        proof {
            let n = before.children@.len();
            lemma_models(before.children@, n);
            lemma_models(self.children@, n + 1);
            lemma_models_prefix(before.children@, self.children@, n);
            assert(self@.children =~= before@.children.push(pushed));
            assert(self@ == (BatchModel {
                children: before@.children.push(self@.children.last()),
                ..before@
            }));
            if before@.wf() {
                assert forall|j: int| 0 <= j < self@.children.len() implies (
                #[trigger] self@.children[j]).wf() by {
                    if j < n {
                        assert(before@.children[j].wf());
                    }
                }
            }
        }
    }

    /// Appends a child with the given flags in place of its own.
    pub fn push_child_with<
        F: Fn(Transform, Affine) -> Affine,
        G: Fn(Transform, Transform) -> Transform,
    >(&mut self, child: DrawBatch, inherit: InheritFromParent, mul: &F, then: &G)
        requires
            child@.wf(),
            forall|t: Transform, m: Affine| call_requires(*mul, (t, m)),
            forall|t: Transform, u: Transform| call_requires(*then, (t, u)),
        ensures
            child_pushed(
                old(self)@,
                final(self)@,
                BatchModel { inherit, ..child@ },
                *mul,
                *then,
            ),
            old(self)@.wf() ==> final(self)@.wf(),
    {
        let mut child = child;
        child.inherit = inherit;
        self.push_child(child, mul, then);
    }

    /// Appends this batch and all batches below, each before its children.
    pub fn walk_preorder<'a>(&'a self, out: &mut Vec<&'a DrawBatch>)
        ensures
            ref_models(final(out)@) == ref_models(old(out)@) + self@.preorder(),
        decreases self,
    {
        let ghost before = out@;
        proof {
            lemma_models(self.children@, self.children@.len());
        }
        out.push(self);
        assert(ref_models(out@) =~= ref_models(before).push(self@));
        assert(ref_models(out@) =~= ref_models(before) + (seq![self@] + self@.preorder_below(0)));
        let mut i: usize = 0;
        while i < self.children.len()
            invariant
                i <= self.children.len(),
                self@.children.len() == self.children.len(),
                forall|j: int|
                    0 <= j < self.children.len() ==> (#[trigger] self@.children[j])
                        == self.children@[j]@,
                ref_models(out@) == ref_models(before) + (seq![self@] + self@.preorder_below(
                    i as nat,
                )),
            decreases self.children.len() - i,
        {
            let ghost prev = out@;
            self.children[i].walk_preorder(out);
            assert(ref_models(out@) =~= ref_models(before) + (seq![self@] + self@.preorder_below(
                (i + 1) as nat,
            )));
            i = i + 1;
        }
    }

    /// Appends this batch and all batches below, each before its children, and
    /// `None` after the children of a batch that clips them.
    pub fn flatten_with_pop<'a>(&'a self, out: &mut Vec<Option<&'a DrawBatch>>)
        ensures
            opt_ref_models(final(out)@) == opt_ref_models(old(out)@) + self@.with_pops(),
        decreases self,
    {
        let ghost before = out@;
        proof {
            lemma_models(self.children@, self.children@.len());
        }
        out.push(Some(self));
        let child_start: usize = out.len();
        assert(opt_ref_models(out@) =~= opt_ref_models(before) + (seq![Some(self@)]
            + self@.with_pops_below(0)));
        let mut i: usize = 0;
        while i < self.children.len()
            invariant
                i <= self.children.len(),
                self@.children.len() == self.children.len(),
                child_start == before.len() + 1,
                forall|j: int|
                    0 <= j < self.children.len() ==> (#[trigger] self@.children[j])
                        == self.children@[j]@,
                opt_ref_models(out@) == opt_ref_models(before) + (seq![Some(self@)]
                    + self@.with_pops_below(i as nat)),
            decreases self.children.len() - i,
        {
            self.children[i].flatten_with_pop(out);
            assert(opt_ref_models(out@) =~= opt_ref_models(before) + (seq![Some(self@)]
                + self@.with_pops_below((i + 1) as nat)));
            i = i + 1;
        }
        assert(out@.len() == opt_ref_models(out@).len());
        if self.clips_children && out.len() > child_start {
            let ghost prev = out@;
            out.push(None);
            assert(opt_ref_models(out@) =~= opt_ref_models(prev).push(None));
        }
        assert(opt_ref_models(out@) =~= opt_ref_models(before) + self@.with_pops());
    }
}

/// `after` is `before` with the child `given` appended, which has taken over
/// what its flags name.
pub open spec fn child_pushed<
    F: Fn(Transform, Affine) -> Affine,
    G: Fn(Transform, Transform) -> Transform,
>(before: BatchModel, after: BatchModel, given: BatchModel, mul: F, then: G) -> bool {
    &&& after.children.len() == before.children.len() + 1
    &&& after == (BatchModel {
        children: before.children.push(after.children.last()),
        ..before
    })
    &&& inherited(before, given, after.children.last(), mul, then)
}

/// What the batches behind some references hold.
pub open spec fn ref_models(refs: Seq<&DrawBatch>) -> Seq<BatchModel> {
    refs.map_values(|b: &DrawBatch| b@)
}

/// What the batches behind some optional references hold.
pub open spec fn opt_ref_models(refs: Seq<Option<&DrawBatch>>) -> Seq<Option<BatchModel>> {
    refs.map_values(
        |b: Option<&DrawBatch>|
            match b {
                Some(b) => Some(b@),
                None => None,
            },
    )
}

impl BatchModel {
    /// The batch and all batches below, each before its children.
    pub open spec fn preorder(self) -> Seq<BatchModel>
        decreases self, self.children.len() + 1,
    {
        seq![self] + self.preorder_below(self.children.len())
    }

    /// The batches in the first `n` children's subtrees.
    pub open spec fn preorder_below(self, n: nat) -> Seq<BatchModel>
        decreases self, n,
        when n <= self.children.len()
    {
        if n == 0 {
            seq![]
        } else {
            self.preorder_below((n - 1) as nat) + self.children[n - 1].preorder()
        }
    }

    /// The batch and all batches below, each before its children, and `None`
    /// after the children, if any, of a batch that clips them.
    pub open spec fn with_pops(self) -> Seq<Option<BatchModel>>
        decreases self, self.children.len() + 1,
    {
        let below = self.with_pops_below(self.children.len());
        let all = seq![Some(self)] + below;
        if self.clips_children && below.len() > 0 {
            all.push(None)
        } else {
            all
        }
    }

    /// [`BatchModel::with_pops`] of the first `n` children.
    pub open spec fn with_pops_below(self, n: nat) -> Seq<Option<BatchModel>>
        decreases self, n,
        when n <= self.children.len()
    {
        if n == 0 {
            seq![]
        } else {
            self.with_pops_below((n - 1) as nat) + self.children[n - 1].with_pops()
        }
    }

    /// Law: in a tree where no batch clips its children, the list with pops is
    /// the plain one.
    pub proof fn lemma_no_clips_no_pops(self)
        requires
            forall|i: int|
                0 <= i < self.preorder().len() ==> !(#[trigger] self.preorder()[i]).clips_children,
        ensures
            self.with_pops() == self.preorder().map_values(|b: BatchModel| Some(b)),
        decreases self, self.children.len() + 1,
    {
        let n = self.children.len();
        let below = self.preorder_below(n);
        assert(!self.preorder()[0].clips_children);
        assert forall|i: int| 0 <= i < below.len() implies !(
        #[trigger] below[i]).clips_children by {
            assert(self.preorder()[i + 1] == below[i]);
        }
        self.lemma_no_clips_no_pops_below(n);
        assert(self.with_pops() =~= self.preorder().map_values(|b: BatchModel| Some(b)));
    }

    proof fn lemma_no_clips_no_pops_below(self, n: nat)
        requires
            n <= self.children.len(),
            forall|i: int|
                0 <= i < self.preorder_below(n).len() ==> !(
                #[trigger] self.preorder_below(n)[i]).clips_children,
        ensures
            self.with_pops_below(n) == self.preorder_below(n).map_values(
                |b: BatchModel| Some(b),
            ),
        decreases self, n,
    {
        if n > 0 {
            let m = (n - 1) as nat;
            let first = self.preorder_below(m);
            let last = self.children[m as int].preorder();
            assert forall|i: int| 0 <= i < first.len() implies !(
            #[trigger] first[i]).clips_children by {
                assert(self.preorder_below(n)[i] == first[i]);
            }
            assert forall|i: int| 0 <= i < last.len() implies !(
            #[trigger] last[i]).clips_children by {
                assert(self.preorder_below(n)[first.len() + i] == last[i]);
            }
            self.lemma_no_clips_no_pops_below(m);
            self.children[m as int].lemma_no_clips_no_pops();
        }
        assert(self.with_pops_below(n) =~= self.preorder_below(n).map_values(
            |b: BatchModel| Some(b),
        ));
    }
}

impl DrawBatch {
    /// A copy of the batch and its whole subtree.
    pub fn clone_batch(&self) -> (r: Self)
        ensures
            r@ == self@,
        decreases self,
    {
        proof {
            lemma_models(self.children@, self.children@.len());
        }
        let mut children: Vec<DrawBatch> = Vec::new();
        let mut i: usize = 0;
        while i < self.children.len()
            invariant
                i <= self.children.len(),
                children.len() == i,
                forall|j: int| 0 <= j < i ==> (#[trigger] children@[j])@ == self.children@[j]@,
            decreases self.children.len() - i,
        {
            children.push(self.children[i].clone_batch());
            i = i + 1;
        }
        proof {
            lemma_models_prefix(children@, self.children@, self.children@.len());
        }
        let vertices = self.vertices.clone();
        let indices = self.indices.clone();
        let texts = self.texts.clone();
        let texture_segments = self.texture_segments.clone();
        let instances = self.instances.clone();
        let instance_texture_segments = self.instance_texture_segments.clone();
        let polygon_edges = self.polygon_edges.clone();
        let dynamic_offsets = self.dynamic_offsets.clone();
        assert(vertices@ =~= self.vertices@);
        assert(indices@ =~= self.indices@);
        assert(texts@ =~= self.texts@);
        assert(texture_segments@ =~= self.texture_segments@);
        assert(instances@ =~= self.instances@);
        assert(instance_texture_segments@ =~= self.instance_texture_segments@);
        assert(polygon_edges@ =~= self.polygon_edges@);
        assert(dynamic_offsets@ =~= self.dynamic_offsets@);
        DrawBatch {
            vertices,
            indices,
            texts,
            bind_group: self.bind_group,
            text_texture: self.text_texture,
            texture_segments,
            instances,
            instance_texture_segments,
            transform: self.transform,
            sdf_feather: self.sdf_feather,
            color: self.color,
            uv: self.uv,
            polygon_edges,
            transforms: self.transforms.clone(),
            has_sdf: self.has_sdf,
            cached_transform_index: self.cached_transform_index,
            children,
            clips_children: self.clips_children,
            inherit: self.inherit,
            area_include: match &self.area_include {
                Some(a) => Some(a.clone()),
                None => None,
            },
            area_exclude: match &self.area_exclude {
                Some(a) => Some(a.clone()),
                None => None,
            },
            bounds: self.bounds,
            scissor: self.scissor,
            text_clip: self.text_clip,
            custom_material: self.custom_material,
            dynamic_offsets,
        }
    }
}

} // verus!
