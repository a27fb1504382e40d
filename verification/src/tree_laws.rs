//! What holds of transform keys, areas and trees, as they are used.

use vstd::prelude::*;
use crate::area;
use crate::area::{effective_area, Area, AreaStencilOp, GeomModel};
use crate::area_laws;
use crate::batch;
use crate::batch::{BatchModel, DrawBatch};
use crate::color::{bytes_to_hex, parse_hex};
use crate::flatten;
use crate::flatten::{flatten_frame, BatchHint, DrawEvent, EventModel};
use crate::geometry::{Affine, Transform};
use crate::glyph::GlyphToRender;
use crate::shape_laws;
use crate::text_renderer::{glyph_attributes, TextRenderer, Upload};
use crate::transform_table;
use crate::transform_table::{transform_key, TransformTable};
use crate::upload;
use crate::upload::glyph_words;
use crate::vertex::{AttributeFormat, F32Bits, VertexAttribute};

verus! {

// ---------------------------------------------------------------------------
// Transform keys
// ---------------------------------------------------------------------------

/// Multiplying by the key's odd factor tells numbers apart.
proof fn lemma_mixing_tells_apart(x: u64, y: u64)
    requires
        x.wrapping_mul(transform_table::KEY_MIX) == y.wrapping_mul(transform_table::KEY_MIX),
    ensures
        x == y,
{
    let k: int = 0x9e37_79b9_7f4a_7c15;
    let inverse: int = 0xf1de83e19937733d;
    let t: int = 10771413168148108919;
    let p: int = 0x1_0000_0000_0000_0000;
    assert(k * inverse == 1 + t * p);
    let (a, b) = (x as int, y as int);
    let q = (a * k) / p - (b * k) / p;
    assert((a * k) % p == (b * k) % p);
    vstd::arithmetic::div_mod::lemma_fundamental_div_mod(a * k, p);
    vstd::arithmetic::div_mod::lemma_fundamental_div_mod(b * k, p);
    assert((a - b) * k == p * q) by (nonlinear_arith)
        requires
            a * k == p * ((a * k) / p) + (a * k) % p,
            b * k == p * ((b * k) / p) + (b * k) % p,
            (a * k) % p == (b * k) % p,
            q == (a * k) / p - (b * k) / p,
    ;
    assert((a - b) * (k * inverse) == p * (q * inverse)) by (nonlinear_arith)
        requires
            (a - b) * k == p * q,
    ;
    assert((a - b) * (1 + t * p) == (a - b) + p * (t * (a - b))) by (nonlinear_arith);
    let d = q * inverse - t * (a - b);
    assert(a - b == p * d) by (nonlinear_arith)
        requires
            (a - b) + p * (t * (a - b)) == p * (q * inverse),
            d == q * inverse - t * (a - b),
    ;
    assert(d == 0) by (nonlinear_arith)
        requires
            a - b == p * d,
            -p < a - b < p,
            p > 0,
    ;
}

proof fn lemma_rounds_tell_apart(h: u64, g: u64, w: F32Bits)
    requires
        transform_table::key_round(h, w) == transform_table::key_round(g, w),
    ensures
        h == g,
{
    lemma_mixing_tells_apart(h, g);
}

proof fn lemma_round_tells_words_apart(h: u64, w: F32Bits, v: F32Bits)
    requires
        transform_table::key_round(h, w) == transform_table::key_round(h, v),
    ensures
        w == v,
{
}

proof fn lemma_folding_tells_apart(h: u64, g: u64)
    requires
        h ^ (h >> 32) == g ^ (g >> 32),
    ensures
        h == g,
{
    assert(h ^ (h >> 32) == g ^ (g >> 32) ==> h == g) by (bit_vector);
}

/// Whether two matrices differ in one part at most.
pub open spec fn differ_in_one(m: Affine, n: Affine) -> bool {
    ||| n == (Affine { a: n.a, ..m })
    ||| n == (Affine { b: n.b, ..m })
    ||| n == (Affine { c: n.c, ..m })
    ||| n == (Affine { d: n.d, ..m })
    ||| n == (Affine { tx: n.tx, ..m })
    ||| n == (Affine { ty: n.ty, ..m })
}

/// Law: matrices that differ in just one part, whichever it is, have different
/// keys, and so are never taken for each other.
pub proof fn lemma_every_part_counts_in_key(m: Affine, n: Affine, k: u64, j: u64)
    requires
        call_ensures(transform_key, (m,), k),
        call_ensures(transform_key, (n,), j),
        differ_in_one(m, n),
    ensures
        k == j ==> m == n,
{
    if k == j {
        let h1 = transform_table::key_round(m.a as u64, m.c);
        let h2 = transform_table::key_round(h1, m.b);
        let h3 = transform_table::key_round(h2, m.d);
        let h4 = transform_table::key_round(h3, m.tx);
        let h5 = transform_table::key_round(h4, m.ty);
        let g1 = transform_table::key_round(n.a as u64, n.c);
        let g2 = transform_table::key_round(g1, n.b);
        let g3 = transform_table::key_round(g2, n.d);
        let g4 = transform_table::key_round(g3, n.tx);
        let g5 = transform_table::key_round(g4, n.ty);
        lemma_folding_tells_apart(h5, g5);
        if m.ty == n.ty {
            lemma_rounds_tell_apart(h4, g4, m.ty);
            if m.tx == n.tx {
                lemma_rounds_tell_apart(h3, g3, m.tx);
                if m.d == n.d {
                    lemma_rounds_tell_apart(h2, g2, m.d);
                    if m.b == n.b {
                        lemma_rounds_tell_apart(h1, g1, m.b);
                        if m.c == n.c {
                            lemma_rounds_tell_apart(m.a as u64, n.a as u64, m.c);
                        } else {
                            lemma_round_tells_words_apart(m.a as u64, m.c, n.c);
                        }
                    } else {
                        lemma_round_tells_words_apart(h1, m.b, n.b);
                    }
                } else {
                    lemma_round_tells_words_apart(h2, m.d, n.d);
                }
            } else {
                lemma_round_tells_words_apart(h3, m.tx, n.tx);
            }
        } else {
            lemma_round_tells_words_apart(h4, m.ty, n.ty);
        }
    }
}

/// Law: registering a matrix in a batch gives the row that holds it, which is the
/// brush's row from then on; rows that were there stay.
pub proof fn lemma_registered_matrix_is_in_batch(b: &mut DrawBatch, m: Affine, r: u32)
    requires
        b@.own_wf(),
        b@.transforms.count() < u32::MAX,
        shape_laws::key_is_free(b@.transforms, m),
        call_ensures(DrawBatch::register_transform, (b, m), r),
    ensures
        shape_laws::row_holds(final(b)@.transforms.rows, r as int, m),
        old(b)@.transforms.rows.is_prefix_of(final(b)@.transforms.rows),
        final(b)@.cached_transform_index == Some(r),
        final(b)@.vertices == old(b)@.vertices,
        final(b)@.instances == old(b)@.instances,
        final(b)@.transform == old(b)@.transform,
        final(b)@.color == old(b)@.color,
{
    let t = b@.transforms;
    transform_table::lemma_register_gives_row(t, m);
    shape_laws::lemma_row_holds_its_matrix(t.registered(m), t.slot(m) as int);
    assert(t.rows.is_prefix_of(t.registered(m).rows));
}

/// Law: the rows that are handed out hold the matrices that are read from the table.
pub proof fn lemma_rows_hold_matrices(t: TransformTable, r: &Vec<F32Bits>, i: u32, m: Affine)
    requires
        t@.wf(),
        i < t@.rows.len() / 12,
        call_ensures(TransformTable::rows, (&t,), r),
        call_ensures(TransformTable::matrix, (&t, i), m),
    ensures
        shape_laws::row_holds(r@, i as int, m),
{
    shape_laws::lemma_row_holds_its_matrix(t@, i as int);
}

/// Law: multiplying a table by a transform multiplies each of its matrices in its
/// place.
pub proof fn lemma_rows_are_multiplied<F: Fn(Transform, Affine) -> Affine>(
    t: &mut TransformTable,
    by: Transform,
    f: F,
    i: u32,
    was: Affine,
    now: Affine,
)
    requires
        t@.wf(),
        t@.count() <= u32::MAX,
        i < t@.rows.len() / 12,
        call_ensures(TransformTable::multiply_rows::<F>, (t, by, &f), ()),
        call_ensures(TransformTable::matrix, (&*old(t), i), was),
        call_ensures(TransformTable::matrix, (&*final(t), i), now),
    ensures
        final(t)@.rows.len() == old(t)@.rows.len(),
        call_ensures(f, (by, was), now),
{
    let _ = transform_table::matrix_at(final(t)@.rows, i as int);
}

// ---------------------------------------------------------------------------
// Areas
// ---------------------------------------------------------------------------

/// Law: what two areas are combined to has the pixels of either, of both, or of the
/// first alone; a simplified area has the same pixels.
pub proof fn lemma_combined_areas(
    a: Area,
    b: Area,
    either: Area,
    both: Area,
    first: Area,
    simple: Area,
    hits: spec_fn(GeomModel) -> bool,
)
    requires
        call_ensures(Area::union, (a, b), either),
        call_ensures(Area::intersect, (a, b), both),
        call_ensures(Area::difference, (a, b), first),
        call_ensures(Area::simplified, (a,), simple),
    ensures
        either@.contains(hits) <==> a@.contains(hits) || b@.contains(hits),
        both@.contains(hits) <==> a@.contains(hits) && b@.contains(hits),
        first@.contains(hits) <==> a@.contains(hits) && !b@.contains(hits),
        simple@.contains(hits) <==> a@.contains(hits),
{
    area_laws::lemma_combinations_mean_themselves(a@, b@, hits);
    a@.lemma_simplify_keeps_pixels(hits);
}

/// Law: a batch is visible in the area that it is to be in, if one is given, without
/// the one that it is not to be in, if one is given; without either it has none.
pub proof fn lemma_area_of_batch(
    inside: Option<&Area>,
    outside: Option<&Area>,
    r: Option<Area>,
    hits: spec_fn(GeomModel) -> bool,
)
    requires
        call_ensures(effective_area, (inside, outside), r),
    ensures
        r is None <==> inside is None && outside is None,
        r is Some ==> (r->0@.contains(hits) <==> (inside is Some ==> inside->0@.contains(hits)) && (
        outside is Some ==> !outside->0@.contains(hits))),
{
    let inc = match inside {
        Some(a) => Some(a@),
        None => None,
    };
    let exc = match outside {
        Some(a) => Some(a@),
        None => None,
    };
    area_laws::lemma_effective_area_pixels(inc, exc, hits);
}

/// The level of a pixel after some steps.
pub open spec fn level_after(
    ops: Seq<AreaStencilOp>,
    hits: spec_fn(GeomModel) -> bool,
    s: int,
) -> int {
    area::run(area::ops_model(ops), hits, s)
}

/// Law: a step raises or lowers exactly the pixels at its level that it draws; a
/// list of steps is its steps one after the other.
pub proof fn lemma_steps_run_in_order(
    ops: Seq<AreaStencilOp>,
    op: AreaStencilOp,
    hits: spec_fn(GeomModel) -> bool,
    s: int,
)
    ensures
        level_after(Seq::empty(), hits, s) == s,
        ({
            let was = level_after(ops, hits, s);
            let now = level_after(ops.push(op), hits, s);
            let (drawn, at, raises) = match op {
                AreaStencilOp::CoverGeom { geom, stencil_ref } => (
                    hits(geom@),
                    stencil_ref as int,
                    true,
                ),
                AreaStencilOp::CoverFull { stencil_ref } => (true, stencil_ref as int, true),
                AreaStencilOp::EraseGeom { geom, stencil_ref } => (
                    hits(geom@),
                    stencil_ref as int,
                    false,
                ),
                AreaStencilOp::EraseFull { stencil_ref } => (true, stencil_ref as int, false),
            };
            &&& drawn && was == at && raises ==> now == was + 1
            &&& drawn && was == at && !raises && was > 0 ==> now == was - 1
            &&& !drawn || was != at ==> now == was
        }),
{
    let m = area::ops_model(ops.push(op));
    assert(m =~= area::ops_model(ops).push(op@));
    assert(m.drop_last() =~= area::ops_model(ops));
    assert(area::ops_model(Seq::<AreaStencilOp>::empty()) =~= seq![]);
}

/// Law: from where no pixel is above `base`, the steps that cover an area raise
/// exactly its pixels at `base` by one.
pub proof fn lemma_cover_steps_mark_area(
    a: Area,
    base: u32,
    out: &mut Vec<AreaStencilOp>,
    hits: spec_fn(GeomModel) -> bool,
    s: int,
)
    requires
        base + a@.cover_height() <= u32::MAX,
        out@.len() == 0,
        s <= base,
        call_ensures(Area::compile_cover, (&a, base, out), ()),
    ensures
        level_after(final(out)@, hits, s) == (if s == base && a@.contains(hits) {
            base + 1
        } else {
            s
        }),
{
    assert(area::ops_model(out@) =~= seq![]);
    assert(area::ops_model(final(out)@) =~= a@.cover_ops(base as int));
    a@.lemma_cover_marks_area(base as int, hits, s);
}

/// Law: from where no pixel is above `level`, the steps that erase an area lower
/// exactly its pixels at `level` by one.
pub proof fn lemma_erase_steps_clear_area(
    a: Area,
    level: u32,
    out: &mut Vec<AreaStencilOp>,
    hits: spec_fn(GeomModel) -> bool,
    s: int,
)
    requires
        0 < level,
        level + a@.erase_height() <= u32::MAX,
        out@.len() == 0,
        s <= level,
        call_ensures(Area::compile_erase, (&a, level, out), ()),
    ensures
        level_after(final(out)@, hits, s) == (if s == level && a@.contains(hits) {
            level - 1
        } else {
            s
        }),
{
    assert(area::ops_model(out@) =~= seq![]);
    assert(area::ops_model(final(out)@) =~= a@.erase_ops(level as int));
    a@.lemma_erase_clears_area(level as int, hits, s);
}

/// Law: cleaning up a level lowers all pixels at it, whatever was drawn.
pub proof fn lemma_cleanup_lowers_level(
    level: u32,
    out: &mut Vec<AreaStencilOp>,
    hits: spec_fn(GeomModel) -> bool,
    s: int,
)
    requires
        0 < level,
        out@.len() == 0,
        call_ensures(Area::compile_cleanup, (level, out), ()),
    ensures
        level_after(final(out)@, hits, s) == (if s == level {
            level - 1
        } else {
            s
        }),
{
    assert(area::ops_model(out@) =~= seq![]);
    let m = area::ops_model(final(out)@);
    assert(m.drop_last() =~= seq![]);
    assert(area::run(m.drop_last(), hits, s) == s);
}

/// Law: no pixel ever rises above the level that is told while an area is covered.
pub proof fn lemma_highest_level_is_told(
    a: Area,
    base: u32,
    most: u32,
    hits: spec_fn(GeomModel) -> bool,
    s: int,
    done: int,
)
    requires
        base + a@.cover_height() <= u32::MAX,
        s <= base,
        0 <= done <= a@.cover_ops(base as int).len(),
        call_ensures(Area::max_stencil_level, (&a, base), most),
    ensures
        area::run(a@.cover_ops(base as int).take(done), hits, s) <= most,
{
    a@.lemma_cover_stays_below_max(base as int, hits, s, done);
}

// ---------------------------------------------------------------------------
// Trees
// ---------------------------------------------------------------------------

/// Law: walking a tree comes to the batch first and then to the trees of its
/// children in order, behind what was there.
pub proof fn lemma_walk_comes_to_children_in_order(
    b: DrawBatch,
    out: &mut Vec<&DrawBatch>,
    n: nat,
)
    requires
        n < b@.children.len(),
        call_ensures(DrawBatch::walk_preorder, (&b, out), ()),
    ensures
        batch::ref_models(old(out)@).is_prefix_of(batch::ref_models(final(out)@)),
        batch::ref_models(final(out)@)[old(out)@.len() as int] == b@,
        ({
            let at = 1 + b@.preorder_below(n).len();
            let tree = b@.children[n as int].preorder();
            &&& at + tree.len() <= b@.preorder().len()
            &&& b@.preorder().subrange(at as int, (at + tree.len()) as int) == tree
        }),
        b@.preorder_below(0).len() == 0,
        b@.preorder_below(n + 1).len() == b@.preorder_below(n).len() + b@.children[n as int].preorder().len(),
{
    let before = batch::ref_models(old(out)@);
    let all = batch::ref_models(final(out)@);
    assert(all == before + b@.preorder());
    assert(b@.preorder()[0] == b@);
    assert(all[before.len() as int] == b@);
    lemma_below_is_prefix(b@, n + 1, b@.children.len());
    let below = b@.preorder_below(b@.children.len());
    let upto = b@.preorder_below(n + 1);
    let at = 1 + b@.preorder_below(n).len();
    let tree = b@.children[n as int].preorder();
    assert forall|i: int| 0 <= i < tree.len() implies b@.preorder()[at + i] == #[trigger] tree[i] by {
        assert(b@.preorder()[at + i] == below[at - 1 + i]);
        assert(below[at - 1 + i] == upto[at - 1 + i]);
    }
    assert(b@.preorder().subrange(at as int, (at + tree.len()) as int) =~= tree);
}

proof fn lemma_below_is_prefix(b: BatchModel, n: nat, m: nat)
    requires
        n <= m <= b.children.len(),
    ensures
        b.preorder_below(n).is_prefix_of(b.preorder_below(m)),
    decreases m - n,
{
    if n < m {
        lemma_below_is_prefix(b, n, (m - 1) as nat);
    }
}

/// Law: with pops, a batch without children is alone, and one that clips its
/// children has a pop behind them.
pub proof fn lemma_pops_stand_behind_children(
    b: DrawBatch,
    out: &mut Vec<Option<&DrawBatch>>,
)
    requires
        out@.len() == 0,
        call_ensures(DrawBatch::flatten_with_pop, (&b, out), ()),
    ensures
        ({
            let r = batch::opt_ref_models(final(out)@);
            &&& r.len() > 0
            &&& r[0] == Some(b@)
            &&& b@.children.len() == 0 ==> r.len() == 1
            &&& b@.children.len() > 0 && b@.clips_children ==> r.last() is None
        }),
{
    let before = batch::opt_ref_models(old(out)@);
    assert(before =~= seq![]);
    let r = batch::opt_ref_models(final(out)@);
    assert(r =~= b@.with_pops());
    if b@.children.len() > 0 {
        assert(b@.with_pops_below(b@.children.len()).len() > 0) by {
            let last = b@.children[b@.children.len() - 1];
            assert(last.with_pops().len() > 0);
        }
    }
}

/// Law: the size of a tree counts the batch and the trees of its children, each
/// once.
pub proof fn lemma_size_counts_all(b: DrawBatch, r: usize, n: nat)
    requires
        b@.size() <= usize::MAX,
        call_ensures(DrawBatch::subtree_size, (&b,), r),
    ensures
        r == 1 + size_of_trees(b@.children, b@.children.len()),
        n <= b@.children.len() ==> b@.preorder_below(n).len() == size_of_trees(b@.children, n),
{
    lemma_size_below(b@, b@.children.len());
    if n <= b@.children.len() {
        lemma_size_below(b@, n);
    }
}

/// How many batches the first `n` trees have.
pub open spec fn size_of_trees(trees: Seq<BatchModel>, n: nat) -> nat
    decreases n,
{
    if n == 0 {
        0
    } else {
        size_of_trees(trees, (n - 1) as nat) + trees[n - 1].size()
    }
}

proof fn lemma_size_below(b: BatchModel, n: nat)
    requires
        n <= b.children.len(),
    ensures
        b.preorder_below(n).len() == size_of_trees(b.children, n),
    decreases n,
{
    if n > 0 {
        lemma_size_below(b, (n - 1) as nat);
    }
}

/// Law: a tree has something to draw if the batch has shapes or texts or a tree of
/// its children has, and not else.
pub proof fn lemma_which_trees_have_content(b: DrawBatch, r: bool, i: int)
    requires
        call_ensures(DrawBatch::has_drawable_content, (&b,), r),
    ensures
        b.vertices@.len() > 0 || b.instances@.len() > 0 || b.texts@.len() > 0 ==> r,
        0 <= i < b@.children.len() && b@.children[i].has_drawable_content() ==> r,
        b@.children.len() == 0 && b.vertices@.len() == 0 && b.instances@.len() == 0
            && b.texts@.len() == 0 ==> !r,
        r && b.vertices@.len() == 0 && b.instances@.len() == 0 && b.texts@.len() == 0
            ==> exists|j: int|
            0 <= j < b@.children.len() && (#[trigger] b@.children[j]).has_drawable_content(),
{
    if 0 <= i < b@.children.len() && b@.children[i].has_drawable_content() {
        assert(b@.has_drawable_content());
    }
}

/// Law: where nothing is left out, every tree of a frame has its root among the
/// events, and a frame without trees has no events.
pub proof fn lemma_every_root_has_its_event(
    roots: Vec<&DrawBatch>,
    hints: Vec<BatchHint>,
    r: Vec<DrawEvent>,
    k: int,
)
    requires
        call_ensures(flatten_frame, (&roots, false, &hints), r),
        flatten::forest_size(batch::ref_models(roots@), roots@.len()) <= hints@.len(),
        flatten::forest_levels_fit(batch::ref_models(roots@), hints@),
    ensures
        roots@.len() == 0 ==> r@.len() == 0,
        0 <= k < roots@.len() ==> exists|i: int|
            0 <= i < r@.len() && (#[trigger] flatten::event_models(r@)[i]) is Batch
                && flatten::event_models(r@)[i]->batch == roots@[k]@,
{
    let models = batch::ref_models(roots@);
    let all = flatten::event_models(r@);
    assert(all.len() == r@.len());
    assert(all == flatten::forest_events(models, models.len(), false, hints@));
    if 0 <= k < roots@.len() {
        let at = flatten::forest_size(models, k as nat) as int;
        let own = models[k].events(0, false, hints@, at);
        let found = models[k].auto_scissor(hints@[at]);
        let n = models[k].setup_events(0).len() as int;
        let e = EventModel::Batch { batch: models[k], auto_scissor: found };
        crate::draw_laws::lemma_what_stands_round_batch(models[k], 0, hints@, at);
        assert(own[n] == e);
        let first = flatten::forest_events(models, k as nat, false, hints@);
        let upto = flatten::forest_events(models, (k + 1) as nat, false, hints@);
        assert(upto == first + own);
        assert(upto[first.len() + n] == e);
        lemma_forest_is_prefix(models, (k + 1) as nat, models.len(), false, hints@);
        assert(all[first.len() + n] == e);
        assert(models[k] == roots@[k]@);
    }
}

proof fn lemma_forest_is_prefix(
    roots: Seq<BatchModel>,
    n: nat,
    m: nat,
    cull: bool,
    hints: Seq<BatchHint>,
)
    requires
        n <= m <= roots.len(),
    ensures
        flatten::forest_events(roots, n, cull, hints).is_prefix_of(
            flatten::forest_events(roots, m, cull, hints),
        ),
    decreases m - n,
{
    if n < m {
        lemma_forest_is_prefix(roots, n, (m - 1) as nat, cull, hints);
    }
}

/// Law: the events of a subtree come behind those there are, and with nothing left
/// out the batch is among them.
pub proof fn lemma_subtree_events_come_behind<'a>(
    b: &'a DrawBatch,
    out: &mut Vec<DrawEvent<'a>>,
    level: u32,
    hints: Vec<BatchHint>,
    at: usize,
)
    requires
        at + b@.size() <= hints@.len(),
        b@.levels_fit(level as int, hints@, at as int),
        call_ensures(DrawBatch::flatten_events, (b, out, level, false, &hints, at), ()),
    ensures
        flatten::event_models(old(out)@).is_prefix_of(flatten::event_models(final(out)@)),
        exists|i: int|
            old(out)@.len() <= i < final(out)@.len() && (#[trigger] flatten::event_models(
                final(out)@,
            )[i]) is Batch && flatten::event_models(final(out)@)[i]->batch == b@,
{
    let before = flatten::event_models(old(out)@);
    let all = flatten::event_models(final(out)@);
    let own = b@.events(level as int, false, hints@, at as int);
    assert(all == before + own);
    assert(all.len() == final(out)@.len());
    let n = b@.setup_events(level as int).len() as int;
    crate::draw_laws::lemma_what_stands_round_batch(b@, level as int, hints@, at as int);
    assert(all[before.len() + n] == own[n]);
}

// ---------------------------------------------------------------------------
// Glyph buffers
// ---------------------------------------------------------------------------

/// Law: the attributes of the glyph layout read the parts of each glyph: place,
/// size, texture place, colour, atlas, depth, row and texture part.
pub proof fn lemma_attributes_read_glyph(
    glyphs: Vec<GlyphToRender>,
    words: Vec<u32>,
    desc: [VertexAttribute; 8],
    i: int,
    c: int,
)
    requires
        call_ensures(glyph_words, (&glyphs,), words),
        call_ensures(glyph_attributes, (), desc),
        0 <= i < glyphs@.len(),
        0 <= c < 4,
    ensures
        ({
            let g = glyphs@[i];
            let at = |k: int| 12 * i + desc@[k].offset as int / 4;
            &&& words@[at(0)] == g.pos@[0] as u32 && words@[at(0) + 1] == g.pos@[1] as u32
            &&& words@[at(1)] == upload::pair_word(g.dim@[0], g.dim@[1])
            &&& words@[at(2)] == upload::pair_word(g.uv@[0], g.uv@[1])
            &&& words@[at(3)] == g.color
            &&& words@[at(4)] % 65536 == g.content_type_with_srgb@[0]
            &&& words@[at(5)] == g.depth
            &&& words@[at(6)] == g.transform_index
            &&& words@[at(7) + c] == g.base_uv_rect@[c]
        }),
        desc@[0].format == AttributeFormat::Sint32x2,
        desc@[5].format == AttributeFormat::Float32,
        desc@[7].format == AttributeFormat::Float32x4,
        forall|k: int| 0 <= k < 8 ==> (#[trigger] desc@[k]).shader_location == k,
{
    crate::device_laws::lemma_glyph_words(glyphs, words, i, c);
    let formats = desc@.map_values(|a: VertexAttribute| a.format);
    assert(formats[0] == desc@[0].format && formats[1] == desc@[1].format && formats[2]
        == desc@[2].format && formats[3] == desc@[3].format && formats[4] == desc@[4].format
        && formats[5] == desc@[5].format && formats[6] == desc@[6].format && formats[7]
        == desc@[7].format);
    assert(desc@[0int + 1].offset == 8);
    assert(desc@[1int + 1].offset == 12);
    assert(desc@[2int + 1].offset == 16);
    assert(desc@[3int + 1].offset == 20);
    assert(desc@[4int + 1].offset == 24);
    assert(desc@[5int + 1].offset == 28);
    assert(desc@[6int + 1].offset == 32);
    let records = upload::glyph_records(glyphs@);
    assert forall|j: int| 0 <= j < records.len() implies (#[trigger] records[j]).len() == 12 by {
        assert(records[j] == glyphs@[j].words());
    }
    let g = glyphs@[i];
    let w = g.words();
    assert(records[i] == w);
    upload::lemma_records_are_evenly_spaced(records, 12, i, 2);
    upload::lemma_records_are_evenly_spaced(records, 12, i, 3);
    assert(w[2] == upload::pair_word(g.dim@[0], g.dim@[1]));
    assert(w[3] == upload::pair_word(g.uv@[0], g.uv@[1]));
}

/// Law: after an upload the buffer has room for all glyphs, which stay as they are;
/// it is replaced only if it had not, and nothing is done without glyphs.
pub proof fn lemma_upload_makes_room(t: &mut TextRenderer, r: Upload)
    requires
        t.glyph_vertices@.len() * 48 <= 0x8000_0000_0000_0000,
        call_ensures(TextRenderer::upload, (t,), r),
    ensures
        final(t).glyph_vertices@ == old(t).glyph_vertices@,
        old(t).glyph_vertices@.len() > 0 ==> final(t).vertex_buffer_size >= old(t).glyph_vertices@.len() * 48,
        r == Upload::Nothing <==> old(t).glyph_vertices@.len() == 0,
        r is Replace <==> old(t).glyph_vertices@.len() > 0 && old(t).vertex_buffer_size < old(t).glyph_vertices@.len() * 48,
        r matches Upload::Replace(n) ==> final(t).vertex_buffer_size == n,
        !(r is Replace) ==> final(t).vertex_buffer_size == old(t).vertex_buffer_size,
{
}

/// Law: bytes that are written in hexadecimal form read back.
pub proof fn lemma_written_bytes_read_back(
    r: u8,
    g: u8,
    b: u8,
    a: u8,
    s: String,
    t: &str,
    back: Option<(u8, u8, u8, u8)>,
)
    requires
        call_ensures(bytes_to_hex, (r, g, b, a), s),
        t@ == s@,
        call_ensures(parse_hex, (t,), back),
    ensures
        back == Some((r, g, b, a)),
{
    crate::color::lemma_hex_reads_back(r, g, b, a);
}

} // verus!
