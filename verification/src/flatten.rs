//! A tree of batches as a flat list of drawing events.

use vstd::prelude::*;
use crate::area::{Area, AreaStencilOp, OpModel};
use crate::batch;
use crate::batch::{BatchModel, DrawBatch};
use crate::geometry::Rect;

verus! {

/// One event of a frame.
#[derive(Debug)]
pub enum DrawEvent<'a> {
    /// The shapes and texts of one batch, with the rectangle it was found to
    /// be, if any.
    Batch { batch: &'a DrawBatch, auto_scissor: Option<Rect> },
    /// The end of a batch whose geometry clips its children.
    StencilPop,
    /// One step of an area mask: before the subtree it is for (`is_setup`), or
    /// after; `closes` on the very last one.
    AreaOp { op: AreaStencilOp, is_setup: bool, closes: bool },
    /// From here on, cut to a rectangle as well.
    ScissorPush(Rect),
    /// The end of the last such cut.
    ScissorPop,
}

/// What a [`DrawEvent`] holds.
pub enum EventModel {
    Batch { batch: BatchModel, auto_scissor: Option<Rect> },
    StencilPop,
    AreaOp { op: OpModel, is_setup: bool, closes: bool },
    ScissorPush(Rect),
    ScissorPop,
}

impl<'a> View for DrawEvent<'a> {
    type V = EventModel;

    open spec fn view(&self) -> EventModel {
        match self {
            DrawEvent::Batch { batch, auto_scissor } => EventModel::Batch {
                batch: batch@,
                auto_scissor: *auto_scissor,
            },
            DrawEvent::StencilPop => EventModel::StencilPop,
            DrawEvent::AreaOp { op, is_setup, closes } => EventModel::AreaOp {
                op: op@,
                is_setup: *is_setup,
                closes: *closes,
            },
            DrawEvent::ScissorPush(r) => EventModel::ScissorPush(*r),
            DrawEvent::ScissorPop => EventModel::ScissorPop,
        }
    }
}

/// What some events hold.
pub open spec fn event_models(events: Seq<DrawEvent>) -> Seq<EventModel> {
    events.map_values(|e: DrawEvent| e@)
}

/// What only the caller can compute of a batch.
#[derive(Clone, Copy, Debug, PartialEq, Eq)]
pub struct BatchHint {
    /// Whether the rectangle given as the batch's bounds meets the screen.
    pub bounds_on_screen: bool,
    /// Whether the computed bounds of the subtree, or else of the batch alone,
    /// meet the screen; `None` if it has none.
    pub computed_on_screen: Option<bool>,
    /// The rectangle that the batch's four corners are, if they are one.
    pub rectangle: Option<Rect>,
}

impl BatchModel {
    /// The one transform row of a batch that may be a plain rectangle: four
    /// vertices, two triangles, no distance fields.
    pub open spec fn rectangle_row(self) -> Option<u32> {
        if self.has_sdf || self.sdf_feather is Some || self.vertices.len() != 4
            || self.indices.len() != 6 || (exists|i: int|
            0 <= i < 4 && (#[trigger] self.vertices[i]).sdf_type != 0) || (exists|i: int|
            0 <= i < 4 && (#[trigger] self.vertices[i]).transform_index
                != self.vertices[0].transform_index) {
            None
        } else {
            Some(self.vertices[0].transform_index)
        }
    }

    /// The rectangle that the batch is, if it is one.
    pub open spec fn auto_scissor(self, hint: BatchHint) -> Option<Rect> {
        if self.rectangle_row() is Some {
            hint.rectangle
        } else {
            None
        }
    }

    /// Whether the children are cut by a rectangle and not by the stencil:
    /// never under an area; else by a given rectangle, or if they are clipped
    /// by a batch that is one.
    pub open spec fn uses_scissor(self, auto_scissor: Option<Rect>) -> bool {
        !self.has_area() && (self.scissor is Some || (self.clips_children && auto_scissor is Some))
    }

    /// The rectangle that the children are cut by.
    pub open spec fn clip_rect(self, auto_scissor: Option<Rect>) -> Option<Rect> {
        if self.scissor is Some {
            self.scissor
        } else {
            auto_scissor
        }
    }

    /// Whether the batch and everything below is left out as off the screen.
    pub open spec fn culled(self, hint: BatchHint) -> bool {
        match self.bounds {
            None => false,
            Some(None) => hint.computed_on_screen == Some(false),
            Some(Some(_)) => !hint.bounds_on_screen,
        }
    }

    /// Whether the batch's geometry raises the stencil for its children.
    pub open spec fn pushes(self, auto_scissor: Option<Rect>) -> bool {
        self.clips_children && self.has_geometry() && !self.uses_scissor(auto_scissor)
    }

    /// The level at which the children start, from the batch's own.
    pub open spec fn child_level(self, auto_scissor: Option<Rect>, level: int) -> int {
        level + (if self.has_area() {
            1int
        } else {
            0int
        }) + (if self.pushes(auto_scissor) {
            1int
        } else {
            0int
        })
    }

    /// The steps before the batch: its area is covered at its level.
    pub open spec fn setup_events(self, level: int) -> Seq<EventModel> {
        if self.has_area() {
            let ops = self.effective_area()->0.cover_ops(level);
            Seq::new(
                ops.len(),
                |i: int| EventModel::AreaOp { op: ops[i], is_setup: true, closes: false },
            )
        } else {
            seq![]
        }
    }

    /// The steps after the subtree: its area is erased again.
    pub open spec fn cleanup_events(self, level: int) -> Seq<EventModel> {
        if self.has_area() {
            let ops = self.effective_area()->0.erase_ops(level + 1);
            Seq::new(
                ops.len(),
                |i: int|
                    EventModel::AreaOp { op: ops[i], is_setup: false, closes: i == ops.len() - 1 },
            )
        } else {
            seq![]
        }
    }

    /// What stands between the batch and its children.
    pub open spec fn push_events(self, auto_scissor: Option<Rect>) -> Seq<EventModel> {
        if self.uses_scissor(auto_scissor) && self.children.len() > 0 {
            seq![EventModel::ScissorPush(self.clip_rect(auto_scissor)->0)]
        } else {
            seq![]
        }
    }

    /// What stands right after the children.
    pub open spec fn pop_events(self, auto_scissor: Option<Rect>) -> Seq<EventModel> {
        if self.uses_scissor(auto_scissor) && self.children.len() > 0 {
            seq![EventModel::ScissorPop]
        } else if self.pushes(auto_scissor) {
            seq![EventModel::StencilPop]
        } else {
            seq![]
        }
    }

    /// How many batches the subtree has.
    pub open spec fn size(self) -> nat {
        self.preorder().len()
    }

    /// The events of the subtree. The batch is at stencil level `level`; its
    /// hint is number `at`, and those of the batches below follow in preorder.
    pub open spec fn events(
        self,
        level: int,
        cull: bool,
        hints: Seq<BatchHint>,
        at: int,
    ) -> Seq<EventModel>
        decreases self, self.children.len() + 1,
    {
        let hint = hints[at];
        let auto_scissor = self.auto_scissor(hint);
        if cull && self.culled(hint) {
            seq![]
        } else {
            self.setup_events(level) + seq![EventModel::Batch { batch: self, auto_scissor }]
                + self.push_events(auto_scissor) + self.events_below(
                self.children.len(),
                self.child_level(auto_scissor, level),
                cull,
                hints,
                at + 1,
            ) + self.pop_events(auto_scissor) + self.cleanup_events(level)
        }
    }

    /// The events of the first `n` children's subtrees, at level `level`, with
    /// hints from number `at` on.
    pub open spec fn events_below(
        self,
        n: nat,
        level: int,
        cull: bool,
        hints: Seq<BatchHint>,
        at: int,
    ) -> Seq<EventModel>
        decreases self, n,
        when n <= self.children.len()
    {
        if n == 0 {
            seq![]
        } else {
            self.events_below((n - 1) as nat, level, cull, hints, at) + self.children[n
                - 1].events(
                level,
                cull,
                hints,
                at + self.preorder_below((n - 1) as nat).len(),
            )
        }
    }

    /// All stencil levels of the subtree fit in 32 bits.
    pub open spec fn levels_fit(self, level: int, hints: Seq<BatchHint>, at: int) -> bool
        decreases self, self.children.len() + 1,
    {
        &&& self.has_area() ==> level + self.effective_area()->0.cover_height() <= u32::MAX && level
            + 1 + self.effective_area()->0.erase_height() <= u32::MAX
        &&& self.child_level(self.auto_scissor(hints[at]), level) <= u32::MAX
        &&& self.levels_fit_below(
            self.children.len(),
            self.child_level(self.auto_scissor(hints[at]), level),
            hints,
            at + 1,
        )
    }

    /// [`BatchModel::levels_fit`] of the first `n` children.
    pub open spec fn levels_fit_below(
        self,
        n: nat,
        level: int,
        hints: Seq<BatchHint>,
        at: int,
    ) -> bool
        decreases self, n,
        when n <= self.children.len()
    {
        n > 0 ==> {
            &&& self.levels_fit_below((n - 1) as nat, level, hints, at)
            &&& self.children[n - 1].levels_fit(
                level,
                hints,
                at + self.preorder_below((n - 1) as nat).len(),
            )
        }
    }
}

proof fn lemma_events_push(events: Seq<DrawEvent>, e: DrawEvent)
    ensures
        event_models(events.push(e)) == event_models(events).push(e@),
{
    assert(event_models(events.push(e)) =~= event_models(events).push(e@));
}

impl BatchModel {
    /// The part of the tree in the first `n` children grows with `n`, and ends
    /// within the whole.
    pub proof fn lemma_preorder_below_grows(self, n: nat, m: nat)
        requires
            n <= m <= self.children.len(),
        ensures
            self.preorder_below(n).len() <= self.preorder_below(m).len(),
            self.preorder_below(m).len() < self.size(),
        decreases self.children.len() - n,
    {
        if n < m {
            self.lemma_preorder_below_grows((n + 1) as nat, m);
        } else if m < self.children.len() {
            self.lemma_preorder_below_grows((m + 1) as nat, (m + 1) as nat);
        }
    }

    proof fn lemma_levels_fit_below_prefix(
        self,
        n: nat,
        m: nat,
        level: int,
        hints: Seq<BatchHint>,
        at: int,
    )
        requires
            n <= m <= self.children.len(),
            self.levels_fit_below(m, level, hints, at),
        ensures
            self.levels_fit_below(n, level, hints, at),
        decreases m - n,
    {
        if n < m {
            self.lemma_levels_fit_below_prefix(n, (m - 1) as nat, level, hints, at);
        }
    }
}

impl DrawBatch {
    /// The one transform row of a batch that may be a plain rectangle; the
    /// caller finds out whether the corners are one.
    pub fn rectangle_row(&self) -> (r: Option<u32>)
        ensures
            r == self@.rectangle_row(),
    {
        if self.has_sdf || self.sdf_feather.is_some() || self.vertices.len() != 4
            || self.indices.len() != 6 {
            return None;
        }
        let row: u32 = self.vertices[0].transform_index;
        let mut i: usize = 0;
        while i < 4
            invariant
                i <= 4,
                self.vertices.len() == 4,
                row == self.vertices@[0].transform_index,
                forall|j: int|
                    0 <= j < i ==> (#[trigger] self.vertices@[j]).sdf_type == 0
                        && self.vertices@[j].transform_index == row,
            decreases 4 - i,
        {
            if self.vertices[i].sdf_type != 0 || self.vertices[i].transform_index != row {
                assert(self@.vertices[i as int].sdf_type != 0
                    || self@.vertices[i as int].transform_index != row);
                return None;
            }
            i = i + 1;
        }
        Some(row)
    }

    /// The rectangle that the batch is, if it is one.
    pub fn auto_scissor(&self, hint: &BatchHint) -> (r: Option<Rect>)
        ensures
            r == self@.auto_scissor(*hint),
    {
        match self.rectangle_row() {
            Some(_) => hint.rectangle,
            None => None,
        }
    }

    /// Whether the children are cut by a rectangle and not by the stencil.
    pub fn uses_scissor_path(&self, has_area: bool, auto_scissor: Option<Rect>) -> (r: bool)
        requires
            has_area == self@.has_area(),
        ensures
            r == self@.uses_scissor(auto_scissor),
    {
        if has_area {
            return false;
        }
        self.scissor.is_some() || (self.clips_children && auto_scissor.is_some())
    }

    fn is_culled(&self, hint: &BatchHint) -> (r: bool)
        ensures
            r == self@.culled(*hint),
    {
        match self.bounds {
            None => false,
            Some(None) => match hint.computed_on_screen {
                Some(on) => !on,
                None => false,
            },
            Some(Some(_)) => !hint.bounds_on_screen,
        }
    }

    /// The number of batches in the subtree.
    pub fn subtree_size(&self) -> (r: usize)
        requires
            self@.size() <= usize::MAX,
        ensures
            r == self@.size(),
        decreases self,
    {
        proof {
            batch::lemma_models(self.children@, self.children@.len());
        }
        let mut n: usize = 1;
        let mut i: usize = 0;
        while i < self.children.len()
            invariant
                i <= self.children.len(),
                self@.size() <= usize::MAX,
                self@.children.len() == self.children.len(),
                forall|j: int|
                    0 <= j < self.children.len() ==> (#[trigger] self@.children[j])
                        == self.children@[j]@,
                n == 1 + self@.preorder_below(i as nat).len(),
            decreases self.children.len() - i,
        {
            proof {
                self@.lemma_preorder_below_grows((i + 1) as nat, (i + 1) as nat);
            }
            n = n + self.children[i].subtree_size();
            i = i + 1;
        }
        n
    }

    /// Appends the events of the subtree. The batch is at stencil level
    /// `level`; `hints` has one entry for each batch of the subtree from number
    /// `at` on, in preorder. With `cull`, batches off the screen are left out
    /// with everything below.
    #[verifier::rlimit(60)]
    pub fn flatten_events<'a>(
        &'a self,
        out: &mut Vec<DrawEvent<'a>>,
        level: u32,
        cull: bool,
        hints: &Vec<BatchHint>,
        at: usize,
    )
        requires
            at + self@.size() <= hints.len(),
            self@.levels_fit(level as int, hints@, at as int),
        ensures
            event_models(final(out)@) == event_models(old(out)@) + self@.events(
                level as int,
                cull,
                hints@,
                at as int,
            ),
        decreases self,
    {
        let ghost before = event_models(out@);
        proof {
            batch::lemma_models(self.children@, self.children@.len());
        }
        let hint = hints[at];
        if cull && self.is_culled(&hint) {
            assert(event_models(out@) =~= before + seq![]);
            return;
        }
        let auto_scissor = self.auto_scissor(&hint);
        let area = self.effective_area();
        let has_area = match &area {
            Some(a) => !a.is_empty(),
            None => false,
        };
        let use_scissor = self.uses_scissor_path(has_area, auto_scissor);
        let has_geometry = self.vertices.len() > 0 || self.instances.len() > 0;
        if has_area {
            if let Some(a) = &area {
                push_cover(a, level, out);
            }
        }
        let ghost setup = self@.setup_events(level as int);
        assert(event_models(out@) =~= before + setup);
        proof {
            lemma_events_push(out@, DrawEvent::Batch { batch: self, auto_scissor });
        }
        out.push(DrawEvent::Batch { batch: self, auto_scissor });
        let ghost batch_event = seq![EventModel::Batch { batch: self@, auto_scissor }];
        assert(event_models(out@) =~= before + (setup + batch_event));
        let area_level: u32 = if has_area {
            level + 1
        } else {
            level
        };
        let pushes = self.clips_children && !use_scissor && has_geometry;
        let child_level: u32 = if pushes {
            area_level + 1
        } else {
            area_level
        };
        if use_scissor && self.children.len() > 0 {
            let clip = match self.scissor {
                Some(r) => Some(r),
                None => auto_scissor,
            };
            if let Some(r) = clip {
                proof {
                    lemma_events_push(out@, DrawEvent::ScissorPush(r));
                }
                out.push(DrawEvent::ScissorPush(r));
            }
        }
        let ghost push = self@.push_events(auto_scissor);
        let ghost head = setup + batch_event + push;
        assert(event_models(out@) =~= before + head);
        assert(head + self@.events_below(0, child_level as int, cull, hints@, at + 1) =~= head);
        let mut next: usize = at + 1;
        let mut i: usize = 0;
        while i < self.children.len()
            invariant
                i <= self.children.len(),
                self@.children.len() == self.children.len(),
                forall|j: int|
                    0 <= j < self.children.len() ==> (#[trigger] self@.children[j])
                        == self.children@[j]@,
                at + self@.size() <= hints.len(),
                next == at + 1 + self@.preorder_below(i as nat).len(),
                self@.levels_fit_below(
                    self@.children.len(),
                    child_level as int,
                    hints@,
                    at + 1,
                ),
                event_models(out@) == before + (head + self@.events_below(
                    i as nat,
                    child_level as int,
                    cull,
                    hints@,
                    at + 1,
                )),
            decreases self.children.len() - i,
        {
            let child = &self.children[i];
            proof {
                self@.lemma_preorder_below_grows((i + 1) as nat, (i + 1) as nat);
                self@.lemma_levels_fit_below_prefix(
                    (i + 1) as nat,
                    self@.children.len(),
                    child_level as int,
                    hints@,
                    at + 1,
                );
            }
            child.flatten_events(out, child_level, cull, hints, next);
            next = next + child.subtree_size();
            assert(event_models(out@) =~= before + (head + self@.events_below(
                (i + 1) as nat,
                child_level as int,
                cull,
                hints@,
                at + 1,
            )));
            i = i + 1;
        }
        let ghost below = self@.events_below(
            self@.children.len(),
            child_level as int,
            cull,
            hints@,
            at + 1,
        );
        if use_scissor && self.children.len() > 0 {
            proof {
                lemma_events_push(out@, DrawEvent::ScissorPop);
            }
            out.push(DrawEvent::ScissorPop);
        } else if pushes {
            proof {
                lemma_events_push(out@, DrawEvent::StencilPop);
            }
            out.push(DrawEvent::StencilPop);
        }
        let ghost pop = self@.pop_events(auto_scissor);
        assert(event_models(out@) =~= before + (head + below + pop));
        if has_area {
            if let Some(a) = &area {
                push_erase(a, level + 1, out);
            }
        }
        assert(event_models(out@) =~= before + self@.events(
            level as int,
            cull,
            hints@,
            at as int,
        ));
    }
}

fn push_cover<'a>(area: &Area, level: u32, out: &mut Vec<DrawEvent<'a>>)
    requires
        level + area@.cover_height() <= u32::MAX,
    ensures
        event_models(final(out)@) == event_models(old(out)@) + Seq::new(
            area@.cover_ops(level as int).len(),
            |i: int|
                EventModel::AreaOp {
                    op: area@.cover_ops(level as int)[i],
                    is_setup: true,
                    closes: false,
                },
        ),
{
    let ghost before = event_models(out@);
    let mut ops: Vec<AreaStencilOp> = Vec::new();
    area.compile_cover(level, &mut ops);
    let ghost steps = area@.cover_ops(level as int);
    let ghost models = Seq::new(
        steps.len(),
        |i: int| EventModel::AreaOp { op: steps[i], is_setup: true, closes: false },
    );
    assert(crate::area::ops_model(ops@) =~= steps);
    let ghost all = ops@;
    for op in it: ops.into_iter()
        invariant
            it.seq() == all,
            crate::area::ops_model(all) == steps,
            models == Seq::new(
                steps.len(),
                |i: int| EventModel::AreaOp { op: steps[i], is_setup: true, closes: false },
            ),
            event_models(out@) == before + models.take(it.index() as int),
    {
        assert(op@ == crate::area::ops_model(all)[it.index() as int]);
        proof {
            lemma_events_push(out@, DrawEvent::AreaOp { op, is_setup: true, closes: false });
        }
        out.push(DrawEvent::AreaOp { op, is_setup: true, closes: false });
        assert(event_models(out@) =~= before + models.take(it.index() as int + 1));
    }
    assert(models.take(models.len() as int) =~= models);
}

fn push_erase<'a>(area: &Area, level: u32, out: &mut Vec<DrawEvent<'a>>)
    requires
        level + area@.erase_height() <= u32::MAX,
    ensures
        event_models(final(out)@) == event_models(old(out)@) + Seq::new(
            area@.erase_ops(level as int).len(),
            |i: int|
                EventModel::AreaOp {
                    op: area@.erase_ops(level as int)[i],
                    is_setup: false,
                    closes: i == area@.erase_ops(level as int).len() - 1,
                },
        ),
{
    let ghost before = event_models(out@);
    let mut ops: Vec<AreaStencilOp> = Vec::new();
    area.compile_erase(level, &mut ops);
    let count: usize = ops.len();
    let ghost steps = area@.erase_ops(level as int);
    let ghost models = Seq::new(
        steps.len(),
        |i: int|
            EventModel::AreaOp { op: steps[i], is_setup: false, closes: i == steps.len() - 1 },
    );
    assert(crate::area::ops_model(ops@) =~= steps);
    let ghost all = ops@;
    let mut left: usize = count;
    for op in it: ops.into_iter()
        invariant
            it.seq() == all,
            crate::area::ops_model(all) == steps,
            count == steps.len(),
            left == count - it.index(),
            models == Seq::new(
                steps.len(),
                |i: int|
                    EventModel::AreaOp { op: steps[i], is_setup: false, closes: i == steps.len() - 1 },
            ),
            event_models(out@) == before + models.take(it.index() as int),
    {
        assert(op@ == crate::area::ops_model(all)[it.index() as int]);
        let closes = left == 1;
        proof {
            lemma_events_push(out@, DrawEvent::AreaOp { op, is_setup: false, closes });
        }
        out.push(DrawEvent::AreaOp { op, is_setup: false, closes });
        assert(event_models(out@) =~= before + models.take(it.index() as int + 1));
        left = left - 1;
    }
    assert(models.take(models.len() as int) =~= models);
}

/// How many batches the first `n` trees have.
pub open spec fn forest_size(roots: Seq<BatchModel>, n: nat) -> nat
    decreases n,
    when n <= roots.len()
{
    if n == 0 {
        0
    } else {
        forest_size(roots, (n - 1) as nat) + roots[n - 1].size()
    }
}

/// The events of the first `n` trees of a frame, one after the other, each from
/// level 0.
pub open spec fn forest_events(
    roots: Seq<BatchModel>,
    n: nat,
    cull: bool,
    hints: Seq<BatchHint>,
) -> Seq<EventModel>
    decreases n,
    when n <= roots.len()
{
    if n == 0 {
        seq![]
    } else {
        forest_events(roots, (n - 1) as nat, cull, hints) + roots[n - 1].events(
            0,
            cull,
            hints,
            forest_size(roots, (n - 1) as nat) as int,
        )
    }
}

/// All stencil levels of the trees fit in 32 bits.
pub open spec fn forest_levels_fit(roots: Seq<BatchModel>, hints: Seq<BatchHint>) -> bool {
    forall|i: int|
        0 <= i < roots.len() ==> (#[trigger] roots[i]).levels_fit(
            0,
            hints,
            forest_size(roots, i as nat) as int,
        )
}

proof fn lemma_forest_grows(roots: Seq<BatchModel>, n: nat, m: nat)
    requires
        n <= m <= roots.len(),
    ensures
        forest_size(roots, n) <= forest_size(roots, m),
    decreases m - n,
{
    if n < m {
        lemma_forest_grows(roots, n, (m - 1) as nat);
    }
}

/// The events of a frame: its trees in order. `hints` has one entry for each
/// batch, tree after tree, in preorder.
pub fn flatten_frame<'a>(
    roots: &Vec<&'a DrawBatch>,
    cull: bool,
    hints: &Vec<BatchHint>,
) -> (r: Vec<DrawEvent<'a>>)
    requires
        forest_size(batch::ref_models(roots@), roots@.len()) <= hints.len(),
        forest_levels_fit(batch::ref_models(roots@), hints@),
    ensures
        event_models(r@) == forest_events(
            batch::ref_models(roots@),
            roots@.len(),
            cull,
            hints@,
        ),
{
    let ghost models = batch::ref_models(roots@);
    let mut out: Vec<DrawEvent<'a>> = Vec::new();
    let mut at: usize = 0;
    let mut i: usize = 0;
    assert(event_models(out@) =~= seq![]);
    while i < roots.len()
        invariant
            i <= roots.len(),
            models == batch::ref_models(roots@),
            forest_size(models, models.len()) <= hints.len(),
            forest_levels_fit(models, hints@),
            at == forest_size(models, i as nat),
            event_models(out@) == forest_events(models, i as nat, cull, hints@),
        decreases roots.len() - i,
    {
        let root = roots[i];
        proof {
            lemma_forest_grows(models, (i + 1) as nat, models.len());
            assert(models[i as int] == root@);
        }
        root.flatten_events(&mut out, 0, cull, hints, at);
        at = at + root.subtree_size();
        i = i + 1;
    }
    out
}

} // verus!
