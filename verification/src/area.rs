//! Areas of the plane and how they are drawn into the stencil buffer.
//!
//! An [`Area`] is a boolean combination of filled shapes. It is shown by
//! drawing its parts, without colour, into the stencil buffer: every
//! [`AreaStencilOp`] raises or lowers by one the pixels that hold one given
//! level. [`Area::compile_cover`] lists the ops that raise exactly the pixels
//! of an area.

use vstd::prelude::*;
use crate::vertex::{F32Bits, Vertex};

verus! {

/// Filled geometry with the transform rows it uses: a leaf of an [`Area`].
#[derive(Debug)]
pub struct AreaGeom {
    pub vertices: Vec<Vertex>,
    pub indices: Vec<u32>,
    pub transform_table: Vec<F32Bits>,
    pub polygon_edges: Vec<F32Bits>,
    pub has_sdf: bool,
    /// The feather width of the batch it came from; `None` for plain geometry.
    pub sdf_feather: Option<F32Bits>,
}

/// What an [`AreaGeom`] holds.
pub struct GeomModel {
    pub vertices: Seq<Vertex>,
    pub indices: Seq<u32>,
    pub transform_table: Seq<F32Bits>,
    pub polygon_edges: Seq<F32Bits>,
    pub has_sdf: bool,
    pub sdf_feather: Option<F32Bits>,
}

impl GeomModel {
    /// Nothing is drawn for a geometry without vertices or without indices.
    pub open spec fn draws_nothing(self) -> bool {
        self.vertices.len() == 0 || self.indices.len() == 0
    }
}

impl View for AreaGeom {
    type V = GeomModel;

    open spec fn view(&self) -> GeomModel {
        GeomModel {
            vertices: self.vertices@,
            indices: self.indices@,
            transform_table: self.transform_table@,
            polygon_edges: self.polygon_edges@,
            has_sdf: self.has_sdf,
            sdf_feather: self.sdf_feather,
        }
    }
}

impl AreaGeom {
    /// Whether drawing this geometry touches no pixel for lack of vertices or
    /// indices.
    pub fn is_empty(&self) -> (r: bool)
        ensures
            r == self@.draws_nothing(),
    {
        self.vertices.len() == 0 || self.indices.len() == 0
    }

    /// Whether the geometry is rasterised as it is, without distance fields.
    pub fn geometry_mode(&self) -> (r: bool)
        ensures
            r == (!self.has_sdf && self.sdf_feather is None),
    {
        !self.has_sdf && self.sdf_feather.is_none()
    }

}

impl Clone for AreaGeom {
    fn clone(&self) -> (r: Self)
        ensures
            r@ == self@,
    {
        let vertices = self.vertices.clone();
        let indices = self.indices.clone();
        let transform_table = self.transform_table.clone();
        let polygon_edges = self.polygon_edges.clone();
        assert(vertices@ =~= self.vertices@);
        assert(indices@ =~= self.indices@);
        assert(transform_table@ =~= self.transform_table@);
        assert(polygon_edges@ =~= self.polygon_edges@);
        AreaGeom {
            vertices,
            indices,
            transform_table,
            polygon_edges,
            has_sdf: self.has_sdf,
            sdf_feather: self.sdf_feather,
        }
    }
}

/// A part of the plane: everything, nothing, a filled geometry, or a boolean
/// combination.
#[derive(Debug)]
pub enum Area {
    Full,
    Empty,
    Geom(AreaGeom),
    Union(Box<Area>, Box<Area>),
    Intersect(Box<Area>, Box<Area>),
    Difference(Box<Area>, Box<Area>),
}

/// What an [`Area`] holds.
pub enum AreaModel {
    Full,
    Empty,
    Geom(GeomModel),
    Union(Box<AreaModel>, Box<AreaModel>),
    Intersect(Box<AreaModel>, Box<AreaModel>),
    Difference(Box<AreaModel>, Box<AreaModel>),
}

/// One drawing step into the stencil buffer, without colour.
///
/// A cover step raises by one every pixel that it draws and that holds
/// `stencil_ref`; an erase step lowers it by one.
#[derive(Debug)]
pub enum AreaStencilOp {
    CoverGeom { geom: AreaGeom, stencil_ref: u32 },
    CoverFull { stencil_ref: u32 },
    EraseGeom { geom: AreaGeom, stencil_ref: u32 },
    EraseFull { stencil_ref: u32 },
}

/// What an [`AreaStencilOp`] does: raise (`cover`) or lower the pixels at
/// level `at`, of one geometry or (`None`) of the whole screen.
pub struct OpModel {
    pub cover: bool,
    pub geom: Option<GeomModel>,
    pub at: int,
}

impl View for AreaStencilOp {
    type V = OpModel;

    open spec fn view(&self) -> OpModel {
        match self {
            AreaStencilOp::CoverGeom { geom, stencil_ref } => OpModel {
                cover: true,
                geom: Some(geom@),
                at: *stencil_ref as int,
            },
            AreaStencilOp::CoverFull { stencil_ref } => OpModel {
                cover: true,
                geom: None,
                at: *stencil_ref as int,
            },
            AreaStencilOp::EraseGeom { geom, stencil_ref } => OpModel {
                cover: false,
                geom: Some(geom@),
                at: *stencil_ref as int,
            },
            AreaStencilOp::EraseFull { stencil_ref } => OpModel {
                cover: false,
                geom: None,
                at: *stencil_ref as int,
            },
        }
    }
}

/// What a list of steps does.
pub open spec fn ops_model(ops: Seq<AreaStencilOp>) -> Seq<OpModel> {
    ops.map_values(|op: AreaStencilOp| op@)
}

// ---------------------------------------------------------------------------
// Meaning
// ---------------------------------------------------------------------------

impl AreaModel {
    /// Whether one pixel lies in the area, where `hits` says which geometries
    /// cover that pixel.
    pub open spec fn contains(self, hits: spec_fn(GeomModel) -> bool) -> bool
        decreases self,
    {
        match self {
            AreaModel::Full => true,
            AreaModel::Empty => false,
            AreaModel::Geom(g) => !g.draws_nothing() && hits(g),
            AreaModel::Union(a, b) => a.contains(hits) || b.contains(hits),
            AreaModel::Intersect(a, b) => a.contains(hits) && b.contains(hits),
            AreaModel::Difference(a, b) => a.contains(hits) && !b.contains(hits),
        }
    }

    /// `a` ∪ `b` with everything and nothing folded away.
    pub open spec fn union_of(a: AreaModel, b: AreaModel) -> AreaModel {
        if a is Full || b is Full {
            AreaModel::Full
        } else if a is Empty {
            b
        } else if b is Empty {
            a
        } else {
            AreaModel::Union(Box::new(a), Box::new(b))
        }
    }

    /// `a` ∩ `b` with everything and nothing folded away.
    pub open spec fn intersection_of(a: AreaModel, b: AreaModel) -> AreaModel {
        if a is Empty || b is Empty {
            AreaModel::Empty
        } else if a is Full {
            b
        } else if b is Full {
            a
        } else {
            AreaModel::Intersect(Box::new(a), Box::new(b))
        }
    }

    /// `a` \ `b` with everything and nothing folded away.
    pub open spec fn difference_of(a: AreaModel, b: AreaModel) -> AreaModel {
        if a is Empty || b is Full {
            AreaModel::Empty
        } else if b is Empty {
            a
        } else {
            AreaModel::Difference(Box::new(a), Box::new(b))
        }
    }

    /// The area with everything and nothing folded away at every depth, and
    /// with geometries that draw nothing taken as empty.
    pub open spec fn simplify(self) -> AreaModel
        decreases self,
    {
        match self {
            AreaModel::Full => AreaModel::Full,
            AreaModel::Empty => AreaModel::Empty,
            AreaModel::Geom(g) => if g.draws_nothing() {
                AreaModel::Empty
            } else {
                AreaModel::Geom(g)
            },
            AreaModel::Union(a, b) => AreaModel::union_of(a.simplify(), b.simplify()),
            AreaModel::Intersect(a, b) => AreaModel::intersection_of(a.simplify(), b.simplify()),
            AreaModel::Difference(a, b) => AreaModel::difference_of(a.simplify(), b.simplify()),
        }
    }

    /// A union of plain shapes: covering or erasing it takes one level only.
    pub open spec fn is_flat(self) -> bool
        decreases self,
    {
        match self {
            AreaModel::Full => true,
            AreaModel::Empty => true,
            AreaModel::Geom(_) => true,
            AreaModel::Union(a, b) => a.is_flat() && b.is_flat(),
            AreaModel::Intersect(_, _) => false,
            AreaModel::Difference(_, _) => false,
        }
    }

    /// Whether erasing the area at some level may meet pixels one level
    /// higher: it lowers them by at most one, whatever shapes they lie in.
    pub open spec fn erases_gently(self) -> bool
        decreases self,
    {
        match self {
            AreaModel::Full => true,
            AreaModel::Empty => true,
            AreaModel::Geom(_) => true,
            AreaModel::Union(a, b) => a.is_flat() && b.erases_gently(),
            AreaModel::Intersect(_, _) => false,
            AreaModel::Difference(a, b) => a.erases_gently() && b.is_flat(),
        }
    }

    /// How many levels above its base covering the area may reach.
    pub open spec fn cover_height(self) -> nat
        decreases self, 0nat,
    {
        match self {
            AreaModel::Full => 1,
            AreaModel::Empty => 1,
            AreaModel::Geom(_) => 1,
            AreaModel::Union(a, b) => if a.is_flat() || b.is_flat() {
                max_nat(a.cover_height(), b.cover_height())
            } else {
                max_nat(a.cover_height(), b.cover_height() + 1)
            },
            AreaModel::Intersect(a, b) => max_nat(
                max_nat(a.cover_height(), b.cover_height() + 1),
                2,
            ),
            AreaModel::Difference(a, b) => max_nat(
                max_nat(a.cover_height(), b.cover_height() + 1),
                b.erase_height() + 1,
            ),
        }
    }

    /// How many levels above the erased one erasing the area may reach.
    pub open spec fn erase_height(self) -> nat
        decreases self, 0nat,
    {
        match self {
            AreaModel::Full => 0,
            AreaModel::Empty => 0,
            AreaModel::Geom(_) => 0,
            AreaModel::Union(a, b) => max_nat(a.erase_height(), b.erase_height()),
            AreaModel::Intersect(a, b) => max_nat(
                a.erase_height() + 1,
                b.guarded_erase_height(),
            ),
            AreaModel::Difference(a, b) => max_nat(b.cover_height(), a.guarded_erase_height()),
        }
    }

    /// [`AreaModel::erase_height`] where pixels one level higher are kept.
    pub open spec fn guarded_erase_height(self) -> nat
        decreases self, 1nat,
    {
        if self.erases_gently() {
            self.erase_height()
        } else {
            self.erase_height() + 1
        }
    }
}

pub open spec fn max_nat(a: nat, b: nat) -> nat {
    if a >= b {
        a
    } else {
        b
    }
}

/// Raise the pixels of `geom`, or of the whole screen, that are at level `at`.
pub open spec fn cover_op(geom: Option<GeomModel>, at: int) -> OpModel {
    OpModel { cover: true, geom, at }
}

/// Lower the pixels of `geom`, or of the whole screen, that are at level `at`.
pub open spec fn erase_op(geom: Option<GeomModel>, at: int) -> OpModel {
    OpModel { cover: false, geom, at }
}

/// The steps that take every pixel at level `from` up to `from + count`.
pub open spec fn raise_ops(from: int, count: nat) -> Seq<OpModel> {
    Seq::new(count, |i: int| cover_op(None, from + i))
}

/// The steps that take every pixel at level `from + count` down to `from`.
pub open spec fn lower_ops(from: int, count: nat) -> Seq<OpModel> {
    Seq::new(count, |i: int| erase_op(None, from + count - i))
}

impl AreaModel {
    /// The steps that cover the area at level `base`.
    ///
    /// In a union whose two parts both need spare levels, the pixels that the
    /// first part has raised are parked above the levels of the second.
    pub open spec fn cover_ops(self, base: int) -> Seq<OpModel>
        decreases self, 0nat,
    {
        match self {
            AreaModel::Full => seq![cover_op(None, base)],
            AreaModel::Empty => seq![],
            AreaModel::Geom(g) => if g.draws_nothing() {
                seq![]
            } else {
                seq![cover_op(Some(g), base)]
            },
            AreaModel::Union(a, b) => if b.is_flat() {
                a.cover_ops(base) + b.cover_ops(base)
            } else if a.is_flat() {
                b.cover_ops(base) + a.cover_ops(base)
            } else {
                a.cover_ops(base) + raise_ops(base + 1, b.cover_height()) + b.cover_ops(base)
                    + lower_ops(base + 1, b.cover_height())
            },
            AreaModel::Difference(a, b) => a.cover_ops(base) + b.erase_ops(base + 1),
            AreaModel::Intersect(a, b) => a.cover_ops(base) + b.cover_ops(base + 1) + seq![
                erase_op(None, base + 1),
                erase_op(None, base + 2),
            ],
        }
    }

    /// The steps that lower by one the pixels of the area at `level`.
    pub open spec fn erase_ops(self, level: int) -> Seq<OpModel>
        decreases self, 0nat,
    {
        match self {
            AreaModel::Full => seq![erase_op(None, level)],
            AreaModel::Empty => seq![],
            AreaModel::Geom(g) => if g.draws_nothing() {
                seq![]
            } else {
                seq![erase_op(Some(g), level)]
            },
            AreaModel::Union(a, b) => a.erase_ops(level) + b.erase_ops(level),
            AreaModel::Difference(a, b) => b.cover_ops(level) + a.guarded_erase_ops(level) + seq![
                erase_op(None, level + 1),
            ],
            AreaModel::Intersect(a, b) => seq![cover_op(None, level)] + a.erase_ops(level + 1)
                + b.guarded_erase_ops(level) + seq![erase_op(None, level + 1)],
        }
    }

    /// [`AreaModel::erase_ops`] where pixels one level higher stay above
    /// `level - 1`: they are parked out of reach if need be.
    pub open spec fn guarded_erase_ops(self, level: int) -> Seq<OpModel>
        decreases self, 1nat,
    {
        if self.erases_gently() {
            self.erase_ops(level)
        } else {
            raise_ops(level + 1, self.erase_height()) + self.erase_ops(level) + lower_ops(
                level + 1,
                self.erase_height(),
            )
        }
    }
}

/// The level of one pixel after one step, from level `s`; `hits` says which
/// geometries cover the pixel. Level 0 is not lowered.
pub open spec fn step(op: OpModel, hits: spec_fn(GeomModel) -> bool, s: int) -> int {
    if s == op.at && (op.geom is Some ==> hits(op.geom->0)) {
        if op.cover {
            s + 1
        } else {
            lowered(s)
        }
    } else {
        s
    }
}

/// One level down, but not below 0.
pub open spec fn lowered(s: int) -> int {
    if s > 0 {
        s - 1
    } else {
        s
    }
}

/// The level of one pixel after a list of steps, from level `s`.
pub open spec fn run(ops: Seq<OpModel>, hits: spec_fn(GeomModel) -> bool, s: int) -> int
    decreases ops.len(),
{
    if ops.len() == 0 {
        s
    } else {
        step(ops.last(), hits, run(ops.drop_last(), hits, s))
    }
}

proof fn lemma_ops_push(ops: Seq<AreaStencilOp>, op: AreaStencilOp)
    ensures
        ops_model(ops.push(op)) == ops_model(ops).push(op@),
{
    assert(ops_model(ops.push(op)) =~= ops_model(ops).push(op@));
}

impl AreaModel {
    /// Covering uses at least the level above its base.
    pub proof fn lemma_cover_height_positive(self)
        ensures
            self.cover_height() >= 1,
        decreases self,
    {
        match self {
            AreaModel::Union(a, b) => {
                a.lemma_cover_height_positive();
            },
            _ => {},
        }
    }
}

impl Area {
    /// What the area holds.
    pub open spec fn model(self) -> AreaModel
        decreases self,
    {
        match self {
            Area::Full => AreaModel::Full,
            Area::Empty => AreaModel::Empty,
            Area::Geom(g) => AreaModel::Geom(g@),
            Area::Union(a, b) => AreaModel::Union(Box::new(a.model()), Box::new(b.model())),
            Area::Intersect(a, b) => AreaModel::Intersect(
                Box::new(a.model()),
                Box::new(b.model()),
            ),
            Area::Difference(a, b) => AreaModel::Difference(
                Box::new(a.model()),
                Box::new(b.model()),
            ),
        }
    }
}

impl View for Area {
    type V = AreaModel;

    open spec fn view(&self) -> AreaModel {
        self.model()
    }
}

impl Clone for Area {
    fn clone(&self) -> (r: Self)
        ensures
            r@ == self@,
        decreases self,
    {
        match self {
            Area::Full => Area::Full,
            Area::Empty => Area::Empty,
            Area::Geom(g) => Area::Geom(g.clone()),
            Area::Union(a, b) => Area::Union(Box::new((**a).clone()), Box::new((**b).clone())),
            Area::Intersect(a, b) => Area::Intersect(
                Box::new((**a).clone()),
                Box::new((**b).clone()),
            ),
            Area::Difference(a, b) => Area::Difference(
                Box::new((**a).clone()),
                Box::new((**b).clone()),
            ),
        }
    }
}

impl Area {
    /// The whole plane.
    pub fn full() -> (r: Self)
        ensures
            r@ == AreaModel::Full,
    {
        Area::Full
    }

    /// No pixel at all.
    pub fn empty() -> (r: Self)
        ensures
            r@ == AreaModel::Empty,
    {
        Area::Empty
    }

    /// The pixels of a geometry; nothing if it has no vertices or no indices.
    pub fn geom(g: AreaGeom) -> (r: Self)
        ensures
            r@ == (if g@.draws_nothing() {
                AreaModel::Empty
            } else {
                AreaModel::Geom(g@)
            }),
    {
        if g.is_empty() {
            Area::Empty
        } else {
            Area::Geom(g)
        }
    }

    /// Whether this is the whole plane, as written.
    pub fn is_full(&self) -> (r: bool)
        ensures
            r == (self@ is Full),
    {
        matches!(self, Area::Full)
    }

    /// Whether this is nothing, as written.
    pub fn is_empty(&self) -> (r: bool)
        ensures
            r == (self@ is Empty),
    {
        matches!(self, Area::Empty)
    }

    /// A ∪ B.
    pub fn union(self, other: Self) -> (r: Self)
        ensures
            r@ == AreaModel::union_of(self@, other@),
    {
        match (self, other) {
            (Area::Full, _) => Area::Full,
            (_, Area::Full) => Area::Full,
            (Area::Empty, b) => b,
            (a, Area::Empty) => a,
            (a, b) => Area::Union(Box::new(a), Box::new(b)),
        }
    }

    /// A ∩ B.
    pub fn intersect(self, other: Self) -> (r: Self)
        ensures
            r@ == AreaModel::intersection_of(self@, other@),
    {
        match (self, other) {
            (Area::Empty, _) => Area::Empty,
            (_, Area::Empty) => Area::Empty,
            (Area::Full, b) => b,
            (a, Area::Full) => a,
            (a, b) => Area::Intersect(Box::new(a), Box::new(b)),
        }
    }

    /// A \ B.
    pub fn difference(self, other: Self) -> (r: Self)
        ensures
            r@ == AreaModel::difference_of(self@, other@),
    {
        match (self, other) {
            (Area::Empty, _) => Area::Empty,
            (a, Area::Empty) => a,
            (_, Area::Full) => Area::Empty,
            (a, b) => Area::Difference(Box::new(a), Box::new(b)),
        }
    }

    /// Folds everything and nothing away at every depth.
    pub fn simplified(self) -> (r: Self)
        ensures
            r@ == self@.simplify(),
        decreases self,
    {
        match self {
            Area::Full => Area::Full,
            Area::Empty => Area::Empty,
            Area::Geom(g) => Area::geom(g),
            Area::Union(a, b) => (*a).simplified().union((*b).simplified()),
            Area::Intersect(a, b) => (*a).simplified().intersect((*b).simplified()),
            Area::Difference(a, b) => (*a).simplified().difference((*b).simplified()),
        }
    }

    /// Appends the steps that, where every pixel is at `base` or below, take
    /// the pixels of this area from `base` to `base + 1` and leave every other
    /// pixel as it was. Levels up to [`Area::max_stencil_level`] are used on
    /// the way.
    pub fn compile_cover(&self, base: u32, out: &mut Vec<AreaStencilOp>)
        requires
            base + self@.cover_height() <= u32::MAX,
        ensures
            ops_model(final(out)@) == ops_model(old(out)@) + self@.cover_ops(base as int),
        decreases self, 0nat,
    {
        let ghost before = out@;
        match self {
            Area::Full => out.push(AreaStencilOp::CoverFull { stencil_ref: base }),
            Area::Empty => {},
            Area::Geom(g) => {
                if !g.is_empty() {
                    out.push(AreaStencilOp::CoverGeom { geom: g.clone(), stencil_ref: base });
                }
            },
            Area::Union(a, b) => {
                if b.is_flat() {
                    a.compile_cover(base, out);
                    b.compile_cover(base, out);
                } else if a.is_flat() {
                    b.compile_cover(base, out);
                    a.compile_cover(base, out);
                } else {
                    a.compile_cover(base, out);
                    let spare: u32 = b.max_stencil_level(base) - base;
                    push_raise(base + 1, spare, out);
                    b.compile_cover(base, out);
                    push_lower(base + 1, spare, out);
                }
            },
            Area::Difference(a, b) => {
                a.compile_cover(base, out);
                b.compile_erase(base + 1, out);
            },
            Area::Intersect(a, b) => {
                // a at base + 1, a ∩ b at base + 2; then a \ b back to base and
                // a ∩ b down to base + 1.
                a.compile_cover(base, out);
                b.compile_cover(base + 1, out);
                proof {
                    lemma_ops_push(out@, AreaStencilOp::EraseFull { stencil_ref: (base + 1) as u32 });
                }
                out.push(AreaStencilOp::EraseFull { stencil_ref: base + 1 });
                proof {
                    lemma_ops_push(out@, AreaStencilOp::EraseFull { stencil_ref: (base + 2) as u32 });
                }
                out.push(AreaStencilOp::EraseFull { stencil_ref: base + 2 });
            },
        }
        assert(ops_model(out@) =~= ops_model(before) + self@.cover_ops(base as int));
    }

    /// Appends the steps that, where every pixel is at `level` or below, lower
    /// by one the pixels of this area at `level` and leave every other pixel
    /// as it was.
    pub fn compile_erase(&self, level: u32, out: &mut Vec<AreaStencilOp>)
        requires
            level + self@.erase_height() <= u32::MAX,
        ensures
            ops_model(final(out)@) == ops_model(old(out)@) + self@.erase_ops(level as int),
        decreases self, 0nat,
    {
        let ghost before = out@;
        match self {
            Area::Full => out.push(AreaStencilOp::EraseFull { stencil_ref: level }),
            Area::Empty => {},
            Area::Geom(g) => {
                if !g.is_empty() {
                    out.push(AreaStencilOp::EraseGeom { geom: g.clone(), stencil_ref: level });
                }
            },
            Area::Union(a, b) => {
                a.compile_erase(level, out);
                b.compile_erase(level, out);
            },
            Area::Difference(a, b) => {
                // b out of the way at level + 1, erase a at level, b back.
                b.compile_cover(level, out);
                a.compile_guarded_erase(level, out);
                proof {
                    b@.lemma_cover_height_positive();
                    lemma_ops_push(
                        out@,
                        AreaStencilOp::EraseFull { stencil_ref: (level + 1) as u32 },
                    );
                }
                out.push(AreaStencilOp::EraseFull { stencil_ref: level + 1 });
            },
            Area::Intersect(a, b) => {
                // Everything at level + 1, a back at level; erase b there, then
                // bring the rest back.
                proof {
                    lemma_ops_push(out@, AreaStencilOp::CoverFull { stencil_ref: level });
                }
                out.push(AreaStencilOp::CoverFull { stencil_ref: level });
                a.compile_erase(level + 1, out);
                b.compile_guarded_erase(level, out);
                proof {
                    lemma_ops_push(
                        out@,
                        AreaStencilOp::EraseFull { stencil_ref: (level + 1) as u32 },
                    );
                }
                out.push(AreaStencilOp::EraseFull { stencil_ref: level + 1 });
            },
        }
        assert(ops_model(out@) =~= ops_model(before) + self@.erase_ops(level as int));
    }

    fn compile_guarded_erase(&self, level: u32, out: &mut Vec<AreaStencilOp>)
        requires
            level + self@.guarded_erase_height() <= u32::MAX,
        ensures
            ops_model(final(out)@) == ops_model(old(out)@) + self@.guarded_erase_ops(level as int),
        decreases self, 1nat,
    {
        let ghost before = out@;
        if self.erases_gently() {
            self.compile_erase(level, out);
        } else {
            let spare: u32 = self.erase_height();
            push_raise(level + 1, spare, out);
            self.compile_erase(level, out);
            push_lower(level + 1, spare, out);
        }
        assert(ops_model(out@) =~= ops_model(before) + self@.guarded_erase_ops(level as int));
    }

    fn is_flat(&self) -> (r: bool)
        ensures
            r == self@.is_flat(),
        decreases self,
    {
        match self {
            Area::Full => true,
            Area::Empty => true,
            Area::Geom(_) => true,
            Area::Union(a, b) => a.is_flat() && b.is_flat(),
            Area::Intersect(_, _) => false,
            Area::Difference(_, _) => false,
        }
    }

    fn erases_gently(&self) -> (r: bool)
        ensures
            r == self@.erases_gently(),
        decreases self,
    {
        match self {
            Area::Full => true,
            Area::Empty => true,
            Area::Geom(_) => true,
            Area::Union(a, b) => a.is_flat() && b.erases_gently(),
            Area::Intersect(_, _) => false,
            Area::Difference(a, b) => a.erases_gently() && b.is_flat(),
        }
    }

    /// Appends the step that takes the pixels at `mask_level`, one above the
    /// base that an area was covered at, back to that base.
    pub fn compile_cleanup(mask_level: u32, out: &mut Vec<AreaStencilOp>)
        ensures
            ops_model(final(out)@) == ops_model(old(out)@).push(erase_op(None, mask_level as int)),
    {
        let ghost before = out@;
        out.push(AreaStencilOp::EraseFull { stencil_ref: mask_level });
        assert(ops_model(out@) =~= ops_model(before).push(erase_op(None, mask_level as int)));
    }

    /// The highest level that covering this area at `base` may touch, counting
    /// `base + 1`.
    pub fn max_stencil_level(&self, base: u32) -> (r: u32)
        requires
            base + self@.cover_height() <= u32::MAX,
        ensures
            r == base + self@.cover_height(),
        decreases self, 0nat,
    {
        match self {
            Area::Full => base + 1,
            Area::Empty => base + 1,
            Area::Geom(_) => base + 1,
            Area::Union(a, b) => {
                let high_a: u32 = a.max_stencil_level(base);
                let high_b: u32 = b.max_stencil_level(base);
                if a.is_flat() || b.is_flat() {
                    max_u32(high_a, high_b)
                } else {
                    max_u32(high_a, high_b + 1)
                }
            },
            Area::Difference(a, b) => {
                let high_a: u32 = a.max_stencil_level(base);
                let high_b: u32 = b.max_stencil_level(base + 1);
                max_u32(max_u32(high_a, high_b), base + 1 + b.erase_height())
            },
            Area::Intersect(a, b) => {
                let high_a: u32 = a.max_stencil_level(base);
                let high_b: u32 = b.max_stencil_level(base + 1);
                max_u32(max_u32(high_a, high_b), base + 2)
            },
        }
    }

    fn erase_height(&self) -> (r: u32)
        requires
            self@.erase_height() <= u32::MAX,
        ensures
            r == self@.erase_height(),
        decreases self, 0nat,
    {
        match self {
            Area::Full => 0,
            Area::Empty => 0,
            Area::Geom(_) => 0,
            Area::Union(a, b) => max_u32(a.erase_height(), b.erase_height()),
            Area::Difference(a, b) => max_u32(b.max_stencil_level(0), a.guarded_erase_height()),
            Area::Intersect(a, b) => max_u32(a.erase_height() + 1, b.guarded_erase_height()),
        }
    }

    fn guarded_erase_height(&self) -> (r: u32)
        requires
            self@.guarded_erase_height() <= u32::MAX,
        ensures
            r == self@.guarded_erase_height(),
        decreases self, 1nat,
    {
        if self.erases_gently() {
            self.erase_height()
        } else {
            self.erase_height() + 1
        }
    }
}

fn max_u32(a: u32, b: u32) -> (r: u32)
    ensures
        r == max_nat(a as nat, b as nat),
{
    if a >= b {
        a
    } else {
        b
    }
}

fn push_raise(from: u32, count: u32, out: &mut Vec<AreaStencilOp>)
    requires
        from + count <= u32::MAX,
    ensures
        ops_model(final(out)@) == ops_model(old(out)@) + raise_ops(from as int, count as nat),
{
    let ghost before = out@;
    let mut i: u32 = 0;
    while i < count
        invariant
            i <= count,
            from + count <= u32::MAX,
            ops_model(out@) =~= ops_model(before) + raise_ops(from as int, i as nat),
        decreases count - i,
    {
        let ghost prev = out@;
        out.push(AreaStencilOp::CoverFull { stencil_ref: from + i });
        assert(ops_model(out@) =~= ops_model(prev).push(cover_op(None, from + i)));
        assert(raise_ops(from as int, (i + 1) as nat) =~= raise_ops(from as int, i as nat).push(
            cover_op(None, from + i),
        ));
        i = i + 1;
    }
}

fn push_lower(from: u32, count: u32, out: &mut Vec<AreaStencilOp>)
    requires
        from + count <= u32::MAX,
    ensures
        ops_model(final(out)@) == ops_model(old(out)@) + lower_ops(from as int, count as nat),
{
    let ghost before = out@;
    let mut i: u32 = 0;
    while i < count
        invariant
            i <= count,
            from + count <= u32::MAX,
            ops_model(out@) =~= ops_model(before) + lower_ops(from as int, count as nat).take(
                i as int,
            ),
        decreases count - i,
    {
        let ghost prev = out@;
        out.push(AreaStencilOp::EraseFull { stencil_ref: from + count - i });
        assert(ops_model(out@) =~= ops_model(prev).push(erase_op(None, from + count - i)));
        i = i + 1;
    }
    assert(lower_ops(from as int, count as nat).take(count as int) =~= lower_ops(
        from as int,
        count as nat,
    ));
}

impl AreaStencilOp {
    /// The stencil mode the step is drawn with: 4 raises, 3 lowers.
    pub fn stencil_pipeline_op(&self) -> (r: u32)
        ensures
            r == (if self@.cover {
                4u32
            } else {
                3u32
            }),
    {
        match self {
            AreaStencilOp::CoverGeom { .. } => 4,
            AreaStencilOp::CoverFull { .. } => 4,
            AreaStencilOp::EraseGeom { .. } => 3,
            AreaStencilOp::EraseFull { .. } => 3,
        }
    }

    /// The level of the pixels that the step changes.
    pub fn stencil_ref(&self) -> (r: u32)
        ensures
            r == self@.at,
    {
        match self {
            AreaStencilOp::CoverGeom { stencil_ref, .. } => *stencil_ref,
            AreaStencilOp::CoverFull { stencil_ref } => *stencil_ref,
            AreaStencilOp::EraseGeom { stencil_ref, .. } => *stencil_ref,
            AreaStencilOp::EraseFull { stencil_ref } => *stencil_ref,
        }
    }

    /// The geometry that the step draws; `None` for the whole screen.
    pub fn geom(&self) -> (r: Option<&AreaGeom>)
        ensures
            r is Some == self@.geom is Some,
            r is Some ==> r->0@ == self@.geom->0,
    {
        match self {
            AreaStencilOp::CoverGeom { geom, .. } => Some(geom),
            AreaStencilOp::EraseGeom { geom, .. } => Some(geom),
            AreaStencilOp::CoverFull { .. } => None,
            AreaStencilOp::EraseFull { .. } => None,
        }
    }

    /// Whether the step draws the whole screen.
    pub fn is_fullscreen(&self) -> (r: bool)
        ensures
            r == (self@.geom is None),
    {
        matches!(self, AreaStencilOp::CoverFull { .. } | AreaStencilOp::EraseFull { .. })
    }
}

/// `include` \ `exclude`, simplified; `None` where neither is given. A missing
/// `include` stands for everything, a missing `exclude` for nothing.
pub fn effective_area(include_area: Option<&Area>, exclude_area: Option<&Area>) -> (r: Option<Area>)
    ensures
        r is None == (include_area is None && exclude_area is None),
        r is Some ==> r->0@ == effective_model(
            match include_area {
                Some(a) => Some(a@),
                None => None,
            },
            match exclude_area {
                Some(a) => Some(a@),
                None => None,
            },
        ),
{
    if include_area.is_none() && exclude_area.is_none() {
        return None;
    }
    let a = match include_area {
        Some(a) => a.clone(),
        None => Area::Full,
    };
    let b = match exclude_area {
        Some(b) => b.clone(),
        None => Area::Empty,
    };
    Some(a.difference(b).simplified())
}

/// The area that is left of `inc` (everything, if missing) without `exc`
/// (nothing, if missing).
pub open spec fn effective_model(inc: Option<AreaModel>, exc: Option<AreaModel>) -> AreaModel {
    AreaModel::difference_of(
        match inc {
            Some(a) => a,
            None => AreaModel::Full,
        },
        match exc {
            Some(b) => b,
            None => AreaModel::Empty,
        },
    ).simplify()
}

} // verus!
