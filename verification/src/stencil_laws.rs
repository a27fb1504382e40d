//! What the stencil buffer does to every pixel of a frame.
//!
//! A pixel of a subtree is followed through all of its events. The subtree
//! leaves the stencil as it found it, every batch uses the levels that follow
//! from its place in the tree alone, and it is seen exactly where its clipping
//! ancestors and the areas on the way allow.

use vstd::prelude::*;
use crate::area;
use crate::area::{GeomModel, OpModel};
use crate::batch::BatchModel;
use crate::flatten;
use crate::flatten::{BatchHint, EventModel};
use crate::geometry::Rect;
use crate::stencil;
use crate::stencil::{LevelModel, StencilUse};

verus! {

/// One pixel and the frame's levels, in the course of a frame.
pub struct PixelModel {
    pub levels: LevelModel,
    /// What the stencil buffer holds for the pixel.
    pub s: int,
    /// How the events so far used the stencil.
    pub uses: Seq<StencilUse>,
    /// For each batch so far, whether the pixel let it through.
    pub seen: Seq<bool>,
}

/// What the stencil buffer holds for the pixel after an event. `hits` says
/// which geometries of areas cover the pixel, `covers` which batches' shapes
/// do.
pub open spec fn stencil_after(
    u: StencilUse,
    e: EventModel,
    hits: spec_fn(GeomModel) -> bool,
    covers: spec_fn(BatchModel) -> bool,
    s: int,
) -> int {
    match e {
        EventModel::Batch { batch, .. } => if u.op == 1 && s == u.reference && covers(batch) {
            s + 1
        } else {
            s
        },
        EventModel::StencilPop => if s == u.reference {
            area::lowered(s)
        } else {
            s
        },
        EventModel::AreaOp { op, .. } => area::step(op, hits, s),
        _ => s,
    }
}

impl PixelModel {
    /// The pixel after one more event.
    pub open spec fn after(
        self,
        e: EventModel,
        hits: spec_fn(GeomModel) -> bool,
        covers: spec_fn(BatchModel) -> bool,
    ) -> PixelModel {
        let u = self.levels.event_use(e);
        PixelModel {
            levels: self.levels.after(e),
            s: stencil_after(u, e, hits, covers, self.s),
            uses: self.uses.push(u),
            seen: if e is Batch {
                self.seen.push(u.op == 0 || self.s == u.reference)
            } else {
                self.seen
            },
        }
    }

    /// The pixel after some more events.
    pub open spec fn after_all(
        self,
        events: Seq<EventModel>,
        hits: spec_fn(GeomModel) -> bool,
        covers: spec_fn(BatchModel) -> bool,
    ) -> PixelModel
        decreases events.len(),
    {
        if events.len() == 0 {
            self
        } else {
            self.after_all(events.drop_last(), hits, covers).after(events.last(), hits, covers)
        }
    }
}

/// How the steps of an area mask use the stencil.
pub open spec fn op_uses(ops: Seq<OpModel>) -> Seq<StencilUse> {
    Seq::new(
        ops.len(),
        |i: int|
            StencilUse {
                op: if ops[i].cover {
                    4
                } else {
                    3
                },
                reference: ops[i].at as u32,
                area: true,
            },
    )
}

impl BatchModel {
    /// How the batch's mask uses the stencil when it is drawn.
    pub open spec fn setup_uses(self, level: int) -> Seq<StencilUse> {
        if self.has_area() {
            op_uses(self.effective_area()->0.cover_ops(level))
        } else {
            seq![]
        }
    }

    /// How the batch's mask uses the stencil when it is taken off.
    pub open spec fn cleanup_uses(self, level: int) -> Seq<StencilUse> {
        if self.has_area() {
            op_uses(self.effective_area()->0.erase_ops(level + 1))
        } else {
            seq![]
        }
    }

    /// How what stands between the batch and its children uses the stencil.
    pub open spec fn push_uses(self, auto_scissor: Option<Rect>) -> Seq<StencilUse> {
        if self.uses_scissor(auto_scissor) && self.children.len() > 0 {
            seq![StencilUse { op: 0, reference: 0, area: false }]
        } else {
            seq![]
        }
    }

    /// How what stands right after the children uses the stencil.
    pub open spec fn pop_uses(self, auto_scissor: Option<Rect>, level: int) -> Seq<StencilUse> {
        if self.uses_scissor(auto_scissor) && self.children.len() > 0 {
            seq![StencilUse { op: 0, reference: 0, area: false }]
        } else if self.pushes(auto_scissor) {
            seq![
                StencilUse {
                    op: 3,
                    reference: (self.content_level(level) + 1) as u32,
                    area: false,
                },
            ]
        } else {
            seq![]
        }
    }

    /// How the events of the subtree use the stencil, from its level alone.
    pub open spec fn tree_uses(
        self,
        level: int,
        cull: bool,
        hints: Seq<BatchHint>,
        at: int,
    ) -> Seq<StencilUse>
        decreases self, self.children.len() + 1,
    {
        let auto_scissor = self.auto_scissor(hints[at]);
        if cull && self.culled(hints[at]) {
            seq![]
        } else {
            self.setup_uses(level) + seq![
                self.stencil_use(auto_scissor, self.content_level(level)),
            ] + self.push_uses(auto_scissor) + self.tree_uses_below(
                self.children.len(),
                self.child_level(auto_scissor, level),
                cull,
                hints,
                at + 1,
            ) + self.pop_uses(auto_scissor, level) + self.cleanup_uses(level)
        }
    }

    /// [`BatchModel::tree_uses`] of the first `n` children.
    pub open spec fn tree_uses_below(
        self,
        n: nat,
        level: int,
        cull: bool,
        hints: Seq<BatchHint>,
        at: int,
    ) -> Seq<StencilUse>
        decreases self, n,
        when n <= self.children.len()
    {
        if n == 0 {
            seq![]
        } else {
            self.tree_uses_below((n - 1) as nat, level, cull, hints, at) + self.children[n
                - 1].tree_uses(
                level,
                cull,
                hints,
                at + self.preorder_below((n - 1) as nat).len(),
            )
        }
    }

    /// For each batch drawn in the subtree, whether the pixel lets it through.
    /// `reached` says whether the pixel lies in everything that clips the
    /// subtree. A batch is seen where it does not test the stencil, or where
    /// the pixel is reached and in its area; its children are reached where,
    /// besides, its shapes cover the pixel, if they clip.
    pub open spec fn tree_seen(
        self,
        level: int,
        reached: bool,
        cull: bool,
        hints: Seq<BatchHint>,
        at: int,
        hits: spec_fn(GeomModel) -> bool,
        covers: spec_fn(BatchModel) -> bool,
    ) -> Seq<bool>
        decreases self, self.children.len() + 1,
    {
        let auto_scissor = self.auto_scissor(hints[at]);
        let inside = self.lets_in(reached, hits);
        if cull && self.culled(hints[at]) {
            seq![]
        } else {
            seq![
                self.stencil_use(auto_scissor, self.content_level(level)).op == 0 || inside,
            ] + self.tree_seen_below(
                self.children.len(),
                self.child_level(auto_scissor, level),
                inside && (self.pushes(auto_scissor) ==> covers(self)),
                cull,
                hints,
                at + 1,
                hits,
                covers,
            )
        }
    }

    /// [`BatchModel::tree_seen`] of the first `n` children.
    pub open spec fn tree_seen_below(
        self,
        n: nat,
        level: int,
        reached: bool,
        cull: bool,
        hints: Seq<BatchHint>,
        at: int,
        hits: spec_fn(GeomModel) -> bool,
        covers: spec_fn(BatchModel) -> bool,
    ) -> Seq<bool>
        decreases self, n,
        when n <= self.children.len()
    {
        if n == 0 {
            seq![]
        } else {
            self.tree_seen_below((n - 1) as nat, level, reached, cull, hints, at, hits, covers)
                + self.children[n - 1].tree_seen(
                level,
                reached,
                cull,
                hints,
                at + self.preorder_below((n - 1) as nat).len(),
                hits,
                covers,
            )
        }
    }
}

proof fn lemma_after_concat(
    p: PixelModel,
    a: Seq<EventModel>,
    b: Seq<EventModel>,
    hits: spec_fn(GeomModel) -> bool,
    covers: spec_fn(BatchModel) -> bool,
)
    ensures
        p.after_all(a + b, hits, covers) == p.after_all(a, hits, covers).after_all(
            b,
            hits,
            covers,
        ),
    decreases b.len(),
{
    if b.len() == 0 {
        assert(a + b =~= a);
    } else {
        lemma_after_concat(p, a, b.drop_last(), hits, covers);
        assert((a + b).drop_last() =~= a + b.drop_last());
    }
}

proof fn lemma_after_one(
    p: PixelModel,
    e: EventModel,
    hits: spec_fn(GeomModel) -> bool,
    covers: spec_fn(BatchModel) -> bool,
)
    ensures
        p.after_all(seq![e], hits, covers) == p.after(e, hits, covers),
{
    assert(seq![e].drop_last() =~= Seq::<EventModel>::empty());
    assert(p.after_all(seq![e].drop_last(), hits, covers) == p);
}

proof fn lemma_six(
    u: Seq<StencilUse>,
    a: Seq<StencilUse>,
    b: Seq<StencilUse>,
    c: Seq<StencilUse>,
    d: Seq<StencilUse>,
    e: Seq<StencilUse>,
    f: Seq<StencilUse>,
)
    ensures
        u + a + b + c + d + e + f == u + (a + b + c + d + e + f),
{
    assert(u + a + b + c + d + e + f =~= u + (a + b + c + d + e + f));
}

/// The events of the steps of an area mask; with `ending`, the last one closes
/// the mask.
pub open spec fn mask_events(ops: Seq<OpModel>, is_setup: bool, ending: bool) -> Seq<EventModel> {
    Seq::new(
        ops.len(),
        |i: int| EventModel::AreaOp { op: ops[i], is_setup, closes: ending && i == ops.len() - 1 },
    )
}

proof fn lemma_after_mask(
    p: PixelModel,
    ops: Seq<OpModel>,
    is_setup: bool,
    ending: bool,
    k: nat,
    hits: spec_fn(GeomModel) -> bool,
    covers: spec_fn(BatchModel) -> bool,
)
    requires
        k <= ops.len(),
    ensures
        p.after_all(mask_events(ops, is_setup, ending).take(k as int), hits, covers) == (
        PixelModel {
            levels: LevelModel {
                area_depth: if ending && k == ops.len() && k > 0 {
                    stencil::less_one(p.levels.area_depth)
                } else {
                    p.levels.area_depth
                },
                ..p.levels
            },
            s: area::run(ops.take(k as int), hits, p.s),
            uses: p.uses + op_uses(ops.take(k as int)),
            seen: p.seen,
        }),
    decreases k,
{
    let events = mask_events(ops, is_setup, ending);
    if k == 0 {
        assert(p.uses + op_uses(ops.take(0)) =~= p.uses);
    } else {
        lemma_after_mask(p, ops, is_setup, ending, (k - 1) as nat, hits, covers);
        assert(events.take(k as int).drop_last() =~= events.take(k - 1));
        assert(ops.take(k as int).drop_last() =~= ops.take(k - 1));
        assert(p.uses + op_uses(ops.take(k as int)) =~= (p.uses + op_uses(ops.take(k - 1))).push(
            op_uses(ops.take(k as int)).last(),
        ));
    }
}

impl BatchModel {
    /// Whether a pixel that is reached or not lies in the batch's area too.
    pub open spec fn lets_in(self, reached: bool, hits: spec_fn(GeomModel) -> bool) -> bool {
        reached && (self.has_area() ==> self.effective_area()->0.contains(hits))
    }

    proof fn lemma_setup(
        self,
        level: int,
        hits: spec_fn(GeomModel) -> bool,
        covers: spec_fn(BatchModel) -> bool,
        p: PixelModel,
    )
        requires
            0 <= level,
            p.s <= level,
        ensures
            p.after_all(self.setup_events(level), hits, covers) == (PixelModel {
                s: if self.lets_in(p.s == level, hits) {
                    self.content_level(level)
                } else {
                    p.s
                },
                uses: p.uses + self.setup_uses(level),
                ..p
            }),
    {
        if self.has_area() {
            let a = self.effective_area()->0;
            let ops = a.cover_ops(level);
            let e = self.setup_events(level);
            assert(e =~= mask_events(ops, true, false));
            lemma_after_mask(p, ops, true, false, ops.len(), hits, covers);
            assert(e.take(ops.len() as int) =~= e);
            assert(ops.take(ops.len() as int) =~= ops);
            a.lemma_cover_marks_area(level, hits, p.s);
        } else {
            assert(p.uses + self.setup_uses(level) =~= p.uses);
        }
    }

    proof fn lemma_draw(
        self,
        auto_scissor: Option<Rect>,
        level: int,
        inside: bool,
        hits: spec_fn(GeomModel) -> bool,
        covers: spec_fn(BatchModel) -> bool,
        p: PixelModel,
    )
        requires
            0 <= level,
            p.levels.level() == level,
            p.s <= self.content_level(level),
            p.s == self.content_level(level) <==> inside,
            self.content_level(level) <= u32::MAX,
        ensures
            p.after_all(seq![EventModel::Batch { batch: self, auto_scissor }], hits, covers) == (
            PixelModel {
                levels: p.levels.after(EventModel::Batch { batch: self, auto_scissor }),
                s: if inside && self.pushes(auto_scissor) && covers(self) {
                    p.s + 1
                } else {
                    p.s
                },
                uses: p.uses + seq![self.stencil_use(auto_scissor, self.content_level(level))],
                seen: p.seen + seq![
                    self.stencil_use(auto_scissor, self.content_level(level)).op == 0 || inside,
                ],
            }),
    {
        let e = EventModel::Batch { batch: self, auto_scissor };
        let u = self.stencil_use(auto_scissor, self.content_level(level));
        lemma_after_one(p, e, hits, covers);
        assert(p.levels.event_use(e) == u);
        assert(p.uses.push(u) =~= p.uses + seq![u]);
        assert(p.seen.push(u.op == 0 || p.s == u.reference) =~= p.seen + seq![
            u.op == 0 || inside,
        ]);
    }

    proof fn lemma_push_scissor(
        self,
        auto_scissor: Option<Rect>,
        hits: spec_fn(GeomModel) -> bool,
        covers: spec_fn(BatchModel) -> bool,
        p: PixelModel,
    )
        ensures
            p.after_all(self.push_events(auto_scissor), hits, covers) == (PixelModel {
                uses: p.uses + self.push_uses(auto_scissor),
                ..p
            }),
    {
        let e = self.push_events(auto_scissor);
        if e.len() > 0 {
            lemma_after_one(p, e[0], hits, covers);
            assert(e =~= seq![e[0]]);
        }
        assert(p.after_all(e, hits, covers).uses =~= p.uses + self.push_uses(auto_scissor));
    }

    proof fn lemma_pop(
        self,
        auto_scissor: Option<Rect>,
        level: int,
        before: PixelModel,
        hits: spec_fn(GeomModel) -> bool,
        covers: spec_fn(BatchModel) -> bool,
        p: PixelModel,
    )
        requires
            0 <= level,
            before.levels.clip_depth >= 0,
            before.levels.level() == level,
            self.content_level(level) + 1 <= u32::MAX || !self.pushes(auto_scissor),
            p.levels == before.levels.after(EventModel::Batch { batch: self, auto_scissor }),
            self.pushes(auto_scissor) && p.s != before.s ==> p.s == self.content_level(level) + 1,
            !self.pushes(auto_scissor) ==> p.s == before.s,
            before.s <= self.content_level(level),
            p.s == self.content_level(level) + 1 ==> before.s == self.content_level(level),
        ensures
            p.after_all(self.pop_events(auto_scissor), hits, covers) == (PixelModel {
                levels: LevelModel {
                    area_depth: before.levels.area_depth + (if self.has_area() {
                        1int
                    } else {
                        0int
                    }),
                    ..before.levels
                },
                s: before.s,
                uses: p.uses + self.pop_uses(auto_scissor, level),
                seen: p.seen,
            }),
    {
        let e = self.pop_events(auto_scissor);
        if e.len() > 0 {
            lemma_after_one(p, e[0], hits, covers);
            assert(e =~= seq![e[0]]);
        }
        if self.pushes(auto_scissor) {
            assert(p.levels.refs.drop_last() =~= before.levels.refs);
        }
        assert(p.after_all(e, hits, covers).uses =~= p.uses + self.pop_uses(auto_scissor, level));
    }

    proof fn lemma_cleanup(
        self,
        level: int,
        hits: spec_fn(GeomModel) -> bool,
        covers: spec_fn(BatchModel) -> bool,
        p: PixelModel,
    )
        requires
            0 <= level,
            p.s <= self.content_level(level),
            self.has_area() && p.s == level + 1 ==> self.effective_area()->0.contains(hits),
            self.has_area() ==> p.levels.area_depth > 0,
        ensures
            p.after_all(self.cleanup_events(level), hits, covers) == (PixelModel {
                levels: LevelModel {
                    area_depth: p.levels.area_depth - (if self.has_area() {
                        1int
                    } else {
                        0int
                    }),
                    ..p.levels
                },
                s: if self.has_area() && p.s == level + 1 {
                    level
                } else {
                    p.s
                },
                uses: p.uses + self.cleanup_uses(level),
                seen: p.seen,
            }),
    {
        if self.has_area() {
            let a = self.effective_area()->0;
            let ops = a.erase_ops(level + 1);
            let e = self.cleanup_events(level);
            assert(e =~= mask_events(ops, false, true));
            lemma_after_mask(p, ops, false, true, ops.len(), hits, covers);
            assert(e.take(ops.len() as int) =~= e);
            assert(ops.take(ops.len() as int) =~= ops);
            self.lemma_area_has_steps(level + 1);
            a.lemma_erase_clears_area(level + 1, hits, p.s);
        } else {
            assert(p.uses + self.cleanup_uses(level) =~= p.uses);
        }
    }

    /// Law: every subtree leaves the stencil, and the count of open clips and
    /// masks, as it found them, whatever the pixel; its events use the stencil
    /// as [`BatchModel::tree_uses`] says; and its batches are seen as
    /// [`BatchModel::tree_seen`] says, where the pixel is reached if the
    /// stencil holds the level of the subtree.
    #[verifier::rlimit(60)]
    #[verifier::spinoff_prover]
    pub proof fn lemma_subtree_restores_stencil(
        self,
        level: int,
        cull: bool,
        hints: Seq<BatchHint>,
        at: int,
        hits: spec_fn(GeomModel) -> bool,
        covers: spec_fn(BatchModel) -> bool,
        p: PixelModel,
    )
        requires
            0 <= p.levels.clip_depth,
            0 <= p.levels.area_depth,
            p.levels.level() == level,
            p.s <= level,
            self.levels_fit(level, hints, at),
        ensures
            p.after_all(self.events(level, cull, hints, at), hits, covers) == (PixelModel {
                levels: p.levels,
                s: p.s,
                uses: p.uses + self.tree_uses(level, cull, hints, at),
                seen: p.seen + self.tree_seen(
                    level,
                    p.s == level,
                    cull,
                    hints,
                    at,
                    hits,
                    covers,
                ),
            }),
        decreases self, self.children.len() + 1,
    {
        let auto_scissor = self.auto_scissor(hints[at]);
        if cull && self.culled(hints[at]) {
            assert(p.uses + Seq::<StencilUse>::empty() =~= p.uses);
            assert(p.seen + Seq::<bool>::empty() =~= p.seen);
        } else {
            let child = self.child_level(auto_scissor, level);
            let n = self.children.len();
            let e1 = self.setup_events(level);
            let e2 = seq![EventModel::Batch { batch: self, auto_scissor }];
            let e3 = self.push_events(auto_scissor);
            let e4 = self.events_below(n, child, cull, hints, at + 1);
            let e5 = self.pop_events(auto_scissor);
            let e6 = self.cleanup_events(level);
            lemma_after_concat(p, e1 + e2 + e3 + e4 + e5, e6, hits, covers);
            lemma_after_concat(p, e1 + e2 + e3 + e4, e5, hits, covers);
            lemma_after_concat(p, e1 + e2 + e3, e4, hits, covers);
            lemma_after_concat(p, e1 + e2, e3, hits, covers);
            lemma_after_concat(p, e1, e2, hits, covers);
            let inside = self.lets_in(p.s == level, hits);
            let p1 = p.after_all(e1, hits, covers);
            self.lemma_setup(level, hits, covers, p);
            let p2 = p1.after_all(e2, hits, covers);
            self.lemma_draw(auto_scissor, level, inside, hits, covers, p1);
            let p3 = p2.after_all(e3, hits, covers);
            self.lemma_push_scissor(auto_scissor, hits, covers, p2);
            assert(p3.levels.level() == child);
            assert((p3.s == child) == (inside && (self.pushes(auto_scissor) ==> covers(self))));
            let p4 = p3.after_all(e4, hits, covers);
            self.lemma_children_restore_stencil(n, child, cull, hints, at + 1, hits, covers, p3);
            let p5 = p4.after_all(e5, hits, covers);
            self.lemma_pop(auto_scissor, level, p1, hits, covers, p4);
            let p6 = p5.after_all(e6, hits, covers);
            self.lemma_cleanup(level, hits, covers, p5);
            lemma_six(
                p.uses,
                self.setup_uses(level),
                seq![self.stencil_use(auto_scissor, self.content_level(level))],
                self.push_uses(auto_scissor),
                self.tree_uses_below(n, child, cull, hints, at + 1),
                self.pop_uses(auto_scissor, level),
                self.cleanup_uses(level),
            );
            let below = self.tree_seen_below(
                n,
                child,
                p3.s == child,
                cull,
                hints,
                at + 1,
                hits,
                covers,
            );
            let own = seq![
                self.stencil_use(auto_scissor, self.content_level(level)).op == 0 || inside,
            ];
            assert(p6.seen == p.seen + own + below);
            assert(p.seen + own + below =~= p.seen + (own + below));
        }
    }

    proof fn lemma_area_has_steps(self, at: int)
        requires
            self.has_area(),
        ensures
            self.effective_area()->0.erase_ops(at).len() > 0,
    {
        let inc = match self.area_include {
            Some(a) => a,
            None => area::AreaModel::Full,
        };
        let exc = match self.area_exclude {
            Some(b) => b,
            None => area::AreaModel::Empty,
        };
        area::AreaModel::difference_of(inc, exc).lemma_simplified_has_steps(at);
    }

    proof fn lemma_children_restore_stencil(
        self,
        n: nat,
        level: int,
        cull: bool,
        hints: Seq<BatchHint>,
        at: int,
        hits: spec_fn(GeomModel) -> bool,
        covers: spec_fn(BatchModel) -> bool,
        p: PixelModel,
    )
        requires
            n <= self.children.len(),
            0 <= p.levels.clip_depth,
            0 <= p.levels.area_depth,
            p.levels.level() == level,
            p.s <= level,
            self.levels_fit_below(n, level, hints, at),
        ensures
            p.after_all(self.events_below(n, level, cull, hints, at), hits, covers) == (PixelModel {
                levels: p.levels,
                s: p.s,
                uses: p.uses + self.tree_uses_below(n, level, cull, hints, at),
                seen: p.seen + self.tree_seen_below(
                    n,
                    level,
                    p.s == level,
                    cull,
                    hints,
                    at,
                    hits,
                    covers,
                ),
            }),
        decreases self, n,
    {
        if n == 0 {
            assert(p.uses + Seq::<StencilUse>::empty() =~= p.uses);
            assert(p.seen + Seq::<bool>::empty() =~= p.seen);
        } else {
            let m = (n - 1) as nat;
            self.lemma_children_restore_stencil(m, level, cull, hints, at, hits, covers, p);
            let first = self.events_below(m, level, cull, hints, at);
            let p1 = p.after_all(first, hits, covers);
            let child = self.children[m as int];
            let child_at = at + self.preorder_below(m).len();
            child.lemma_subtree_restores_stencil(level, cull, hints, child_at, hits, covers, p1);
            let last = child.events(level, cull, hints, child_at);
            lemma_after_concat(p, first, last, hits, covers);
            let p2 = p1.after_all(last, hits, covers);
            assert(p2.uses =~= p.uses + self.tree_uses_below(n, level, cull, hints, at));
            assert(p2.seen =~= p.seen + self.tree_seen_below(
                n,
                level,
                p.s == level,
                cull,
                hints,
                at,
                hits,
                covers,
            ));
        }
    }
}

/// How the first `n` trees of a frame use the stencil.
pub open spec fn forest_uses(
    roots: Seq<BatchModel>,
    n: nat,
    cull: bool,
    hints: Seq<BatchHint>,
) -> Seq<StencilUse>
    decreases n,
    when n <= roots.len()
{
    if n == 0 {
        seq![]
    } else {
        forest_uses(roots, (n - 1) as nat, cull, hints) + roots[n - 1].tree_uses(
            0,
            cull,
            hints,
            flatten::forest_size(roots, (n - 1) as nat) as int,
        )
    }
}

/// For each batch drawn in the first `n` trees, whether the pixel lets it
/// through.
pub open spec fn forest_seen(
    roots: Seq<BatchModel>,
    n: nat,
    cull: bool,
    hints: Seq<BatchHint>,
    hits: spec_fn(GeomModel) -> bool,
    covers: spec_fn(BatchModel) -> bool,
) -> Seq<bool>
    decreases n,
    when n <= roots.len()
{
    if n == 0 {
        seq![]
    } else {
        forest_seen(roots, (n - 1) as nat, cull, hints, hits, covers) + roots[n - 1].tree_seen(
            0,
            true,
            cull,
            hints,
            flatten::forest_size(roots, (n - 1) as nat) as int,
            hits,
            covers,
        )
    }
}

/// A pixel at the start of a frame.
pub open spec fn fresh_pixel() -> PixelModel {
    PixelModel { levels: LevelModel::start(), s: 0, uses: seq![], seen: seq![] }
}

proof fn lemma_pixel_tracks_plan(
    p: PixelModel,
    events: Seq<EventModel>,
    hits: spec_fn(GeomModel) -> bool,
    covers: spec_fn(BatchModel) -> bool,
)
    ensures
        p.after_all(events, hits, covers).levels == stencil::levels_after(events, p.levels),
        p.after_all(events, hits, covers).uses == p.uses + stencil::uses_of(events, p.levels),
    decreases events.len(),
{
    if events.len() == 0 {
        assert(p.uses + stencil::uses_of(events, p.levels) =~= p.uses);
    } else {
        lemma_pixel_tracks_plan(p, events.drop_last(), hits, covers);
        assert(p.after_all(events, hits, covers).uses =~= p.uses + stencil::uses_of(
            events,
            p.levels,
        ));
    }
}

/// Law: in a whole frame, each batch uses the stencil as its place in its tree
/// says, every pixel ends with the stencil at 0 as it began, and a batch is
/// seen at a pixel exactly where the clips and areas on its way let it.
pub proof fn lemma_frame_stencil(
    roots: Seq<BatchModel>,
    n: nat,
    cull: bool,
    hints: Seq<BatchHint>,
    hits: spec_fn(GeomModel) -> bool,
    covers: spec_fn(BatchModel) -> bool,
)
    requires
        n <= roots.len(),
        flatten::forest_levels_fit(roots, hints),
    ensures
        stencil::uses_of(flatten::forest_events(roots, n, cull, hints), LevelModel::start())
            == forest_uses(roots, n, cull, hints),
        fresh_pixel().after_all(flatten::forest_events(roots, n, cull, hints), hits, covers) == (
        PixelModel {
            levels: LevelModel::start(),
            s: 0,
            uses: forest_uses(roots, n, cull, hints),
            seen: forest_seen(roots, n, cull, hints, hits, covers),
        }),
    decreases n,
{
    let p = fresh_pixel();
    let events = flatten::forest_events(roots, n, cull, hints);
    if n > 0 {
        let m = (n - 1) as nat;
        lemma_frame_stencil(roots, m, cull, hints, hits, covers);
        let first = flatten::forest_events(roots, m, cull, hints);
        let root = roots[m as int];
        let at = flatten::forest_size(roots, m) as int;
        let p1 = p.after_all(first, hits, covers);
        root.lemma_subtree_restores_stencil(0, cull, hints, at, hits, covers, p1);
        lemma_after_concat(p, first, root.events(0, cull, hints, at), hits, covers);
    }
    lemma_pixel_tracks_plan(p, events, hits, covers);
    assert(p.uses + stencil::uses_of(events, p.levels) =~= stencil::uses_of(events, p.levels));
}

} // verus!
