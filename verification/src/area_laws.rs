//! What the stencil steps of an [`crate::area::Area`] do to every pixel.

use vstd::prelude::*;
use crate::area;
use crate::area::{AreaModel, GeomModel, OpModel};

verus! {

/// Every step works at a level from `lo` to `hi`.
pub open spec fn within(ops: Seq<OpModel>, lo: int, hi: int) -> bool {
    forall|i: int| 0 <= i < ops.len() ==> lo <= (#[trigger] ops[i]).at <= hi
}

/// No step raises a pixel above `top`.
pub open spec fn stays_below(ops: Seq<OpModel>, top: int) -> bool {
    forall|i: int| 0 <= i < ops.len() && (#[trigger] ops[i]).cover ==> ops[i].at < top
}

/// Running two lists in a row is running their concatenation.
pub proof fn lemma_run_concat(
    a: Seq<OpModel>,
    b: Seq<OpModel>,
    hits: spec_fn(GeomModel) -> bool,
    s: int,
)
    ensures
        area::run(a + b, hits, s) == area::run(b, hits, area::run(a, hits, s)),
    decreases b.len(),
{
    if b.len() == 0 {
        assert(a + b =~= a);
    } else {
        lemma_run_concat(a, b.drop_last(), hits, s);
        assert((a + b).drop_last() =~= a + b.drop_last());
    }
}

proof fn lemma_run_one(op: OpModel, hits: spec_fn(GeomModel) -> bool, s: int)
    ensures
        area::run(seq![op], hits, s) == area::step(op, hits, s),
{
    assert(seq![op].drop_last() =~= Seq::<OpModel>::empty());
    assert(area::run(seq![op].drop_last(), hits, s) == s);
}

proof fn lemma_run_skips(
    ops: Seq<OpModel>,
    hits: spec_fn(GeomModel) -> bool,
    s: int,
    lo: int,
    hi: int,
)
    requires
        within(ops, lo, hi),
        s < lo || s > hi,
    ensures
        area::run(ops, hits, s) == s,
    decreases ops.len(),
{
    if ops.len() > 0 {
        assert(within(ops.drop_last(), lo, hi));
        lemma_run_skips(ops.drop_last(), hits, s, lo, hi);
    }
}

proof fn lemma_run_below(ops: Seq<OpModel>, hits: spec_fn(GeomModel) -> bool, s: int, top: int)
    requires
        stays_below(ops, top),
        s <= top,
    ensures
        area::run(ops, hits, s) <= top,
    decreases ops.len(),
{
    if ops.len() > 0 {
        assert(stays_below(ops.drop_last(), top));
        lemma_run_below(ops.drop_last(), hits, s, top);
    }
}

proof fn lemma_run_raise(from: int, count: nat, hits: spec_fn(GeomModel) -> bool, s: int)
    requires
        s <= from,
    ensures
        area::run(area::raise_ops(from, count), hits, s) == (if s == from {
            from + count
        } else {
            s
        }),
    decreases count,
{
    let ops = area::raise_ops(from, count);
    if count > 0 {
        lemma_run_raise(from, (count - 1) as nat, hits, s);
        assert(ops.drop_last() =~= area::raise_ops(from, (count - 1) as nat));
    }
}

proof fn lemma_run_lower(from: int, count: nat, hits: spec_fn(GeomModel) -> bool, s: int)
    requires
        from >= 0,
        s <= from || s == from + count,
    ensures
        area::run(area::lower_ops(from, count), hits, s) == (if s == from + count {
            from
        } else {
            s
        }),
    decreases count,
{
    let ops = area::lower_ops(from, count);
    if count > 0 {
        let rest = area::lower_ops(from, (count - 1) as nat);
        let first = area::erase_op(None, from + count);
        assert(ops =~= seq![first] + rest);
        lemma_run_concat(seq![first], rest, hits, s);
        lemma_run_one(first, hits, s);
        lemma_run_lower(from, (count - 1) as nat, hits, area::step(first, hits, s));
    }
}

impl AreaModel {
    proof fn lemma_flat_levels(self, at: int)
        requires
            self.is_flat(),
        ensures
            within(self.cover_ops(at), at, at),
            within(self.erase_ops(at), at, at),
        decreases self,
    {
        match self {
            AreaModel::Union(a, b) => {
                a.lemma_flat_levels(at);
                b.lemma_flat_levels(at);
            },
            _ => {},
        }
    }

    proof fn lemma_cover_levels(self, base: int)
        ensures
            within(self.cover_ops(base), base, base + self.cover_height()),
            stays_below(self.cover_ops(base), base + self.cover_height()),
        decreases self, 0nat,
    {
        match self {
            AreaModel::Union(a, b) => {
                a.lemma_cover_levels(base);
                b.lemma_cover_levels(base);
            },
            AreaModel::Intersect(a, b) => {
                a.lemma_cover_levels(base);
                b.lemma_cover_levels(base + 1);
            },
            AreaModel::Difference(a, b) => {
                a.lemma_cover_levels(base);
                b.lemma_erase_levels(base + 1);
            },
            _ => {},
        }
    }

    proof fn lemma_erase_levels(self, level: int)
        ensures
            within(self.erase_ops(level), level, level + self.erase_height()),
            stays_below(self.erase_ops(level), level + self.erase_height()),
        decreases self, 0nat,
    {
        match self {
            AreaModel::Union(a, b) => {
                a.lemma_erase_levels(level);
                b.lemma_erase_levels(level);
            },
            AreaModel::Intersect(a, b) => {
                a.lemma_erase_levels(level + 1);
                b.lemma_guarded_erase_levels(level);
            },
            AreaModel::Difference(a, b) => {
                b.lemma_cover_levels(level);
                b.lemma_cover_height_positive();
                a.lemma_guarded_erase_levels(level);
            },
            _ => {},
        }
    }

    proof fn lemma_guarded_erase_levels(self, level: int)
        ensures
            within(self.guarded_erase_ops(level), level, level + self.guarded_erase_height()),
            stays_below(self.guarded_erase_ops(level), level + self.guarded_erase_height()),
        decreases self, 1nat,
    {
        self.lemma_erase_levels(level);
    }

    /// Law: where every pixel is at `base` or below, covering an area takes its
    /// pixels from `base` to `base + 1` and leaves every other pixel as it was.
    pub proof fn lemma_cover_marks_area(self, base: int, hits: spec_fn(GeomModel) -> bool, s: int)
        requires
            0 <= base,
            s <= base,
        ensures
            area::run(self.cover_ops(base), hits, s) == (if s == base && self.contains(hits) {
                base + 1
            } else {
                s
            }),
        decreases self, 0nat,
    {
        match self {
            AreaModel::Full => {
                lemma_run_one(area::cover_op(None, base), hits, s);
            },
            AreaModel::Empty => {},
            AreaModel::Geom(g) => {
                lemma_run_one(area::cover_op(Some(g), base), hits, s);
            },
            AreaModel::Union(a, b) => {
                a.lemma_cover_marks_area(base, hits, s);
                b.lemma_cover_marks_area(base, hits, s);
                if b.is_flat() {
                    lemma_run_concat(a.cover_ops(base), b.cover_ops(base), hits, s);
                    b.lemma_flat_levels(base);
                    if area::run(a.cover_ops(base), hits, s) != s {
                        lemma_run_skips(b.cover_ops(base), hits, base + 1, base, base);
                    }
                } else if a.is_flat() {
                    lemma_run_concat(b.cover_ops(base), a.cover_ops(base), hits, s);
                    a.lemma_flat_levels(base);
                    if area::run(b.cover_ops(base), hits, s) != s {
                        lemma_run_skips(a.cover_ops(base), hits, base + 1, base, base);
                    }
                } else {
                    let h = b.cover_height();
                    let o1 = a.cover_ops(base);
                    let o2 = area::raise_ops(base + 1, h);
                    let o3 = b.cover_ops(base);
                    let o4 = area::lower_ops(base + 1, h);
                    lemma_run_concat(o1 + o2 + o3, o4, hits, s);
                    lemma_run_concat(o1 + o2, o3, hits, s);
                    lemma_run_concat(o1, o2, hits, s);
                    let s1 = area::run(o1, hits, s);
                    lemma_run_raise(base + 1, h, hits, s1);
                    let s2 = area::run(o2, hits, s1);
                    b.lemma_cover_levels(base);
                    if s1 == base + 1 {
                        lemma_run_skips(o3, hits, s2, base, base + h);
                    }
                    lemma_run_lower(base + 1, h, hits, area::run(o3, hits, s2));
                }
            },
            AreaModel::Difference(a, b) => {
                let s1 = area::run(a.cover_ops(base), hits, s);
                a.lemma_cover_marks_area(base, hits, s);
                lemma_run_concat(a.cover_ops(base), b.erase_ops(base + 1), hits, s);
                b.lemma_erase_clears_area(base + 1, hits, s1);
            },
            AreaModel::Intersect(a, b) => {
                let o1 = a.cover_ops(base);
                let o2 = b.cover_ops(base + 1);
                let e1 = area::erase_op(None, base + 1);
                let e2 = area::erase_op(None, base + 2);
                a.lemma_cover_marks_area(base, hits, s);
                let s1 = area::run(o1, hits, s);
                b.lemma_cover_marks_area(base + 1, hits, s1);
                let s2 = area::run(o2, hits, s1);
                lemma_run_concat(o1 + o2, seq![e1, e2], hits, s);
                lemma_run_concat(o1, o2, hits, s);
                assert(seq![e1, e2] =~= seq![e1] + seq![e2]);
                lemma_run_concat(seq![e1], seq![e2], hits, s2);
                lemma_run_one(e1, hits, s2);
                lemma_run_one(e2, hits, area::step(e1, hits, s2));
            },
        }
    }

    /// Law: where every pixel is at `level` or below, erasing an area lowers by
    /// one its pixels at `level` and leaves every other pixel as it was.
    pub proof fn lemma_erase_clears_area(self, level: int, hits: spec_fn(GeomModel) -> bool, s: int)
        requires
            0 <= level,
            s <= level,
        ensures
            area::run(self.erase_ops(level), hits, s) == (if s == level && self.contains(hits) {
                area::lowered(level)
            } else {
                s
            }),
        decreases self, 0nat,
    {
        match self {
            AreaModel::Full => {
                lemma_run_one(area::erase_op(None, level), hits, s);
            },
            AreaModel::Empty => {},
            AreaModel::Geom(g) => {
                lemma_run_one(area::erase_op(Some(g), level), hits, s);
            },
            AreaModel::Union(a, b) => {
                let s1 = area::run(a.erase_ops(level), hits, s);
                a.lemma_erase_clears_area(level, hits, s);
                lemma_run_concat(a.erase_ops(level), b.erase_ops(level), hits, s);
                b.lemma_erase_clears_area(level, hits, s1);
            },
            AreaModel::Difference(a, b) => {
                let o1 = b.cover_ops(level);
                let o2 = a.guarded_erase_ops(level);
                let e = area::erase_op(None, level + 1);
                b.lemma_cover_marks_area(level, hits, s);
                let s1 = area::run(o1, hits, s);
                a.lemma_guarded_erase(level, hits, s1);
                lemma_run_concat(o1 + o2, seq![e], hits, s);
                lemma_run_concat(o1, o2, hits, s);
                lemma_run_one(e, hits, area::run(o2, hits, s1));
            },
            AreaModel::Intersect(a, b) => {
                let c = area::cover_op(None, level);
                let o1 = a.erase_ops(level + 1);
                let o2 = b.guarded_erase_ops(level);
                let e = area::erase_op(None, level + 1);
                lemma_run_one(c, hits, s);
                let s1 = area::step(c, hits, s);
                a.lemma_erase_clears_area(level + 1, hits, s1);
                let s2 = area::run(o1, hits, s1);
                b.lemma_guarded_erase(level, hits, s2);
                lemma_run_concat(seq![c] + o1 + o2, seq![e], hits, s);
                lemma_run_concat(seq![c] + o1, o2, hits, s);
                lemma_run_concat(seq![c], o1, hits, s);
                lemma_run_one(e, hits, area::run(o2, hits, s2));
            },
        }
    }

    proof fn lemma_guarded_erase(self, level: int, hits: spec_fn(GeomModel) -> bool, s: int)
        requires
            0 <= level,
            s <= level + 1,
        ensures
            s <= level ==> area::run(self.guarded_erase_ops(level), hits, s) == (if s == level
                && self.contains(hits) {
                area::lowered(level)
            } else {
                s
            }),
            s == level + 1 ==> level <= area::run(self.guarded_erase_ops(level), hits, s) <= level + 1,
        decreases self, 1nat,
    {
        if self.erases_gently() {
            if s == level + 1 {
                self.lemma_erase_gently(level, hits);
            } else {
                self.lemma_erase_clears_area(level, hits, s);
            }
        } else {
            let h = self.erase_height();
            let o1 = area::raise_ops(level + 1, h);
            let o2 = self.erase_ops(level);
            let o3 = area::lower_ops(level + 1, h);
            lemma_run_concat(o1 + o2, o3, hits, s);
            lemma_run_concat(o1, o2, hits, s);
            lemma_run_raise(level + 1, h, hits, s);
            let s1 = area::run(o1, hits, s);
            if s == level + 1 {
                self.lemma_erase_levels(level);
                lemma_run_skips(o2, hits, s1, level, level + h);
            } else {
                self.lemma_erase_clears_area(level, hits, s);
            }
            lemma_run_lower(level + 1, h, hits, area::run(o2, hits, s1));
        }
    }

    proof fn lemma_erase_gently(self, level: int, hits: spec_fn(GeomModel) -> bool)
        requires
            0 <= level,
            self.erases_gently(),
        ensures
            level <= area::run(self.erase_ops(level), hits, level + 1) <= level + 1,
        decreases self, 0nat,
    {
        match self {
            AreaModel::Full => {
                lemma_run_one(area::erase_op(None, level), hits, level + 1);
            },
            AreaModel::Empty => {},
            AreaModel::Geom(g) => {
                lemma_run_one(area::erase_op(Some(g), level), hits, level + 1);
            },
            AreaModel::Union(a, b) => {
                a.lemma_flat_levels(level);
                lemma_run_skips(a.erase_ops(level), hits, level + 1, level, level);
                lemma_run_concat(a.erase_ops(level), b.erase_ops(level), hits, level + 1);
                b.lemma_erase_gently(level, hits);
            },
            AreaModel::Difference(a, b) => {
                let o1 = b.cover_ops(level);
                let o2 = a.guarded_erase_ops(level);
                let e = area::erase_op(None, level + 1);
                b.lemma_flat_levels(level);
                lemma_run_skips(o1, hits, level + 1, level, level);
                a.lemma_erase_gently(level, hits);
                lemma_run_concat(o1 + o2, seq![e], hits, level + 1);
                lemma_run_concat(o1, o2, hits, level + 1);
                lemma_run_one(e, hits, area::run(o2, hits, level + 1));
            },
            AreaModel::Intersect(_, _) => {},
        }
    }

    /// Law: covering an area at `base` and cleaning up the level above gives
    /// every pixel back the level it had.
    pub proof fn lemma_cleanup_undoes_cover(
        self,
        base: int,
        hits: spec_fn(GeomModel) -> bool,
        s: int,
    )
        requires
            0 <= base,
            s <= base,
        ensures
            area::run(self.cover_ops(base).push(area::erase_op(None, base + 1)), hits, s) == s,
    {
        let e = area::erase_op(None, base + 1);
        self.lemma_cover_marks_area(base, hits, s);
        assert(self.cover_ops(base).push(e) =~= self.cover_ops(base) + seq![e]);
        lemma_run_concat(self.cover_ops(base), seq![e], hits, s);
        lemma_run_one(e, hits, area::run(self.cover_ops(base), hits, s));
    }

    /// Law: at no moment of covering an area does a pixel rise above the level
    /// that [`crate::area::Area::max_stencil_level`] gives.
    pub proof fn lemma_cover_stays_below_max(
        self,
        base: int,
        hits: spec_fn(GeomModel) -> bool,
        s: int,
        done: int,
    )
        requires
            s <= base,
            0 <= done <= self.cover_ops(base).len(),
        ensures
            area::run(self.cover_ops(base).take(done), hits, s) <= base + self.cover_height(),
    {
        self.lemma_cover_levels(base);
        lemma_run_below(self.cover_ops(base).take(done), hits, s, base + self.cover_height());
    }

    /// Law: simplifying an area keeps its pixels.
    pub proof fn lemma_simplify_keeps_pixels(self, hits: spec_fn(GeomModel) -> bool)
        ensures
            self.simplify().contains(hits) == self.contains(hits),
        decreases self,
    {
        match self {
            AreaModel::Union(a, b) => {
                a.lemma_simplify_keeps_pixels(hits);
                b.lemma_simplify_keeps_pixels(hits);
            },
            AreaModel::Intersect(a, b) => {
                a.lemma_simplify_keeps_pixels(hits);
                b.lemma_simplify_keeps_pixels(hits);
            },
            AreaModel::Difference(a, b) => {
                a.lemma_simplify_keeps_pixels(hits);
                b.lemma_simplify_keeps_pixels(hits);
            },
            _ => {},
        }
    }

    /// Law: simplifying a second time changes nothing.
    pub proof fn lemma_simplify_is_idempotent(self)
        ensures
            self.simplify().simplify() == self.simplify(),
        decreases self,
    {
        match self {
            AreaModel::Union(a, b) => {
                a.lemma_simplify_is_idempotent();
                b.lemma_simplify_is_idempotent();
            },
            AreaModel::Intersect(a, b) => {
                a.lemma_simplify_is_idempotent();
                b.lemma_simplify_is_idempotent();
            },
            AreaModel::Difference(a, b) => {
                a.lemma_simplify_is_idempotent();
                b.lemma_simplify_is_idempotent();
            },
            _ => {},
        }
    }
}

impl AreaModel {
    /// Law: a simplified area that is not empty takes at least one step to
    /// cover and one to erase.
    pub proof fn lemma_simplified_has_steps(self, at: int)
        requires
            !(self.simplify() is Empty),
        ensures
            self.simplify().cover_ops(at).len() > 0,
            self.simplify().erase_ops(at).len() > 0,
        decreases self,
    {
        match self {
            AreaModel::Union(a, b) => {
                if !(a.simplify() is Empty) {
                    a.lemma_simplified_has_steps(at);
                }
                if !(b.simplify() is Empty) {
                    b.lemma_simplified_has_steps(at);
                }
            },
            AreaModel::Intersect(a, b) => {
                a.lemma_simplified_has_steps(at);
                b.lemma_simplified_has_steps(at);
            },
            AreaModel::Difference(a, b) => {
                a.lemma_simplified_has_steps(at);
            },
            _ => {},
        }
    }
}

/// Law: `union`, `intersect` and `difference` mean union, intersection and
/// difference, pixel by pixel.
pub proof fn lemma_combinations_mean_themselves(
    a: AreaModel,
    b: AreaModel,
    hits: spec_fn(GeomModel) -> bool,
)
    ensures
        AreaModel::union_of(a, b).contains(hits) == (a.contains(hits) || b.contains(hits)),
        AreaModel::intersection_of(a, b).contains(hits) == (a.contains(hits) && b.contains(hits)),
        AreaModel::difference_of(a, b).contains(hits) == (a.contains(hits) && !b.contains(hits)),
{
}

/// Law: the effective area of a batch holds the pixels that are in the given
/// inclusion, if any, and not in the given exclusion, if any.
pub proof fn lemma_effective_area_pixels(
    inc: Option<AreaModel>,
    exc: Option<AreaModel>,
    hits: spec_fn(GeomModel) -> bool,
)
    ensures
        area::effective_model(inc, exc).contains(hits) == ((inc is Some ==> inc->0.contains(hits)) && !(
        exc is Some && exc->0.contains(hits))),
{
    let a = match inc {
        Some(a) => a,
        None => AreaModel::Full,
    };
    let b = match exc {
        Some(b) => b,
        None => AreaModel::Empty,
    };
    lemma_combinations_mean_themselves(a, b, hits);
    AreaModel::difference_of(a, b).lemma_simplify_keeps_pixels(hits);
}

} // verus!
