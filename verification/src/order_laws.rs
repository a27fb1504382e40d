//! A pass draws in order, and cuts each draw to the rectangles on its way.

use crate::batch::{BatchModel, TextureSegment};
use crate::flatten;
use crate::flatten::{BatchHint, EventModel};
use crate::frame::ShapeModel;
use crate::geometry::Rect;
use crate::pass;
use crate::pass::{InfoModel, PassCommand, PassModel, PixelBox, PixelRect};
use crate::renderer;
use crate::stencil::StencilUse;
use vstd::prelude::*;

verus! {

// ---------------------------------------------------------------------------
// The order of draws
// ---------------------------------------------------------------------------

/// Which event a command draws, and which part of it: 0 for shapes, 1 for
/// instances, 2 for texts.
pub open spec fn drawn_part(c: PassCommand) -> Option<(usize, int)> {
    match c {
        PassCommand::DrawIndexed { event, .. } => Some((event, 0)),
        PassCommand::DrawInstances { event, .. } => Some((event, 1)),
        PassCommand::DrawText { event, .. } => Some((event, 2)),
        _ => None,
    }
}

spec fn rank(c: PassCommand) -> int {
    match drawn_part(c) {
        Some((event, part)) => 3 * event + part,
        None => 0,
    }
}

spec fn ranked(cs: Seq<PassCommand>, low: int, high: int) -> bool {
    &&& forall|i: int|
        0 <= i < cs.len() && drawn_part(#[trigger] cs[i]) is Some ==> low <= rank(cs[i]) <= high
    &&& forall|i: int, j: int|
        0 <= i < j < cs.len() && drawn_part(#[trigger] cs[i]) is Some && drawn_part(
            #[trigger] cs[j],
        ) is Some ==> rank(cs[i]) <= rank(cs[j])
}

proof fn lemma_ranked_concat(
    a: Seq<PassCommand>,
    b: Seq<PassCommand>,
    low: int,
    between: int,
    high: int,
)
    requires
        ranked(a, low, between),
        ranked(b, between, high),
        low <= between <= high,
    ensures
        ranked(a + b, low, high),
{
    let cs = a + b;
    assert forall|i: int| 0 <= i < cs.len() && drawn_part(#[trigger] cs[i]) is Some implies low
        <= rank(cs[i]) <= high by {
        if i < a.len() {
            assert(cs[i] == a[i]);
        } else {
            assert(cs[i] == b[i - a.len()]);
        }
    }
    assert forall|i: int, j: int|
        0 <= i < j < cs.len() && drawn_part(#[trigger] cs[i]) is Some && drawn_part(
            #[trigger] cs[j],
        ) is Some implies rank(cs[i]) <= rank(cs[j]) by {
        if j < a.len() {
            assert(cs[i] == a[i] && cs[j] == a[j]);
        } else if i >= a.len() {
            assert(cs[i] == b[i - a.len()] && cs[j] == b[j - a.len()]);
        } else {
            assert(cs[i] == a[i] && cs[j] == b[j - a.len()]);
        }
    }
}

proof fn lemma_event_ranked(p: PassModel, info: InfoModel, event: usize, uses_stencil: bool)
    ensures
        ranked(p.shape_part(info, event, uses_stencil).0, 3 * event, 3 * event + 1),
        ranked(p.text_part(info, event, uses_stencil).0, 3 * event + 2, 3 * event + 2),
{
    let low = 3 * event as int;
    if info.shape is Some {
        let shape = info.shape->0;
        let reference: Seq<PassCommand> = if uses_stencil {
            seq![PassCommand::SetReference(info.stencil.reference)]
        } else {
            seq![]
        };
        let head: Seq<PassCommand> = if p.must_bind(info, uses_stencil) {
            seq![PassCommand::BindShapes { event, pipeline: info.pipeline(uses_stencil) }]
        } else {
            seq![]
        };
        let draws = pass::index_draws(event, shape.base_vertex, shape.segments);
        lemma_ranked_concat(head, reference, low, low, low);
        lemma_ranked_concat(head + reference, draws, low, low, low);
        if shape.instances.len() > 0 {
            let bind: Seq<PassCommand> = seq![
                PassCommand::BindInstances { op: info.stencil.op },
            ];
            let instances = pass::instance_draws(event, shape.instances);
            let drawn = head + reference + draws;
            lemma_ranked_concat(drawn, bind, low, low, low);
            lemma_ranked_concat(drawn + bind, reference, low, low, low + 1);
            lemma_ranked_concat(drawn + bind + reference, instances, low, low + 1, low + 1);
        }
    }
}

/// Law: a pass draws its events in order; of each event first the shapes, then
/// the instances, then the texts. What is drawn later covers what was drawn
/// before.
pub proof fn lemma_draws_in_order(
    infos: Seq<InfoModel>,
    uses_stencil: bool,
    width: u32,
    height: u32,
    i: int,
    j: int,
)
    requires
        infos.len() <= usize::MAX,
        0 <= i < j < pass::pass_of(infos, uses_stencil, width, height).0.len(),
        drawn_part(pass::pass_of(infos, uses_stencil, width, height).0[i]) is Some,
        drawn_part(pass::pass_of(infos, uses_stencil, width, height).0[j]) is Some,
    ensures
        ({
            let cs = pass::pass_of(infos, uses_stencil, width, height).0;
            let (first, first_part) = drawn_part(cs[i])->0;
            let (second, second_part) = drawn_part(cs[j])->0;
            &&& first < infos.len() && second < infos.len()
            &&& first < second || (first == second && first_part <= second_part)
        }),
{
    lemma_pass_ranked(infos, uses_stencil, width, height);
}

proof fn lemma_pass_ranked(infos: Seq<InfoModel>, uses_stencil: bool, width: u32, height: u32)
    requires
        infos.len() <= usize::MAX,
    ensures
        ranked(
            pass::pass_of(infos, uses_stencil, width, height).0,
            0,
            if infos.len() == 0 {
                0
            } else {
                3 * infos.len() - 1
            },
        ),
    decreases infos.len(),
{
    if infos.len() > 0 {
        let rest = infos.drop_last();
        lemma_pass_ranked(rest, uses_stencil, width, height);
        let before = pass::pass_of(rest, uses_stencil, width, height);
        let event = (infos.len() - 1) as usize;
        let info = infos.last();
        let a = before.1.scissor_part(info, width, height);
        let b = a.1.shape_part(info, event, uses_stencil);
        let c = b.1.text_part(info, event, uses_stencil);
        lemma_event_ranked(a.1, info, event, uses_stencil);
        lemma_event_ranked(b.1, info, event, uses_stencil);
        let low = 3 * event as int;
        assert(ranked(before.0, 0, low));
        lemma_ranked_concat(a.0, b.0, low, low, low + 2);
        lemma_ranked_concat(a.0 + b.0, c.0, low, low + 2, low + 2);
        lemma_ranked_concat(before.0, a.0 + b.0 + c.0, 0, low, low + 2);
    }
}

// ---------------------------------------------------------------------------
// The batches of a frame and the rectangles they are cut to
// ---------------------------------------------------------------------------

/// The course of a frame: which rectangles are cut to, and which batches were
/// drawn so far, each with the rectangles that were cut to.
#[verifier::ext_equal]
pub struct Walk {
    pub open: Seq<Rect>,
    pub drawn: Seq<(BatchModel, Seq<Rect>)>,
}

impl Walk {
    /// At the start of a frame.
    pub open spec fn start() -> Walk {
        Walk { open: seq![], drawn: seq![] }
    }

    /// After one event.
    pub open spec fn after(self, e: EventModel) -> Walk {
        match e {
            EventModel::Batch { batch, .. } => Walk {
                drawn: self.drawn.push((batch, self.open)),
                ..self
            },
            EventModel::ScissorPush(r) => Walk { open: self.open.push(r), ..self },
            EventModel::ScissorPop => Walk {
                open: if self.open.len() > 0 {
                    self.open.drop_last()
                } else {
                    self.open
                },
                ..self
            },
            _ => self,
        }
    }

    /// After some events.
    pub open spec fn after_all(self, events: Seq<EventModel>) -> Walk
        decreases events.len(),
    {
        if events.len() == 0 {
            self
        } else {
            self.after_all(events.drop_last()).after(events.last())
        }
    }
}

proof fn lemma_walk_concat(w: Walk, a: Seq<EventModel>, b: Seq<EventModel>)
    ensures
        w.after_all(a + b) == w.after_all(a).after_all(b),
    decreases b.len(),
{
    if b.len() == 0 {
        assert(a + b =~= a);
    } else {
        lemma_walk_concat(w, a, b.drop_last());
        assert((a + b).drop_last() =~= a + b.drop_last());
    }
}

proof fn lemma_walk_one(w: Walk, e: EventModel)
    ensures
        w.after_all(seq![e]) == w.after(e),
{
    assert(seq![e].drop_last() =~= Seq::<EventModel>::empty());
    assert(w.after_all(seq![e].drop_last()) == w);
}

proof fn lemma_walk_masks(w: Walk, events: Seq<EventModel>)
    requires
        forall|i: int| 0 <= i < events.len() ==> (#[trigger] events[i]) is AreaOp,
    ensures
        w.after_all(events) == w,
    decreases events.len(),
{
    if events.len() > 0 {
        let rest = events.drop_last();
        assert forall|i: int| 0 <= i < rest.len() implies (#[trigger] rest[i]) is AreaOp by {
            assert(rest[i] == events[i]);
        }
        lemma_walk_masks(w, rest);
        assert(events[events.len() - 1] is AreaOp);
    }
}

impl BatchModel {
    /// The rectangles that the children are cut to.
    pub open spec fn child_cuts(self, open: Seq<Rect>, hint: BatchHint) -> Seq<Rect> {
        let auto_scissor = self.auto_scissor(hint);
        if self.uses_scissor(auto_scissor) {
            open.push(self.clip_rect(auto_scissor)->0)
        } else {
            open
        }
    }

    /// The batches of the subtree that are drawn, each before its children, with
    /// the rectangles on their way.
    pub open spec fn tree_drawn(
        self,
        open: Seq<Rect>,
        cull: bool,
        hints: Seq<BatchHint>,
        at: int,
    ) -> Seq<(BatchModel, Seq<Rect>)>
        decreases self, self.children.len() + 1,
    {
        if cull && self.culled(hints[at]) {
            seq![]
        } else {
            seq![(self, open)] + self.tree_drawn_below(
                self.children.len(),
                self.child_cuts(open, hints[at]),
                cull,
                hints,
                at + 1,
            )
        }
    }

    /// [`BatchModel::tree_drawn`] of the first `n` children.
    pub open spec fn tree_drawn_below(
        self,
        n: nat,
        open: Seq<Rect>,
        cull: bool,
        hints: Seq<BatchHint>,
        at: int,
    ) -> Seq<(BatchModel, Seq<Rect>)>
        decreases self, n,
        when n <= self.children.len()
    {
        if n == 0 {
            seq![]
        } else {
            self.tree_drawn_below((n - 1) as nat, open, cull, hints, at) + self.children[n
                - 1].tree_drawn(open, cull, hints, at + self.preorder_below((n - 1) as nat).len())
        }
    }

    /// Law: a subtree draws its batches as [`BatchModel::tree_drawn`] says, and
    /// leaves the rectangles that are cut to as it found them.
    pub proof fn lemma_subtree_drawn(
        self,
        level: int,
        cull: bool,
        hints: Seq<BatchHint>,
        at: int,
        w: Walk,
    )
        ensures
            w.after_all(self.events(level, cull, hints, at)) == (Walk {
                open: w.open,
                drawn: w.drawn + self.tree_drawn(w.open, cull, hints, at),
            }),
        decreases self, self.children.len() + 1,
    {
        let auto_scissor = self.auto_scissor(hints[at]);
        if cull && self.culled(hints[at]) {
            assert(w.drawn + seq![] =~= w.drawn);
        } else {
            let child = self.child_level(auto_scissor, level);
            let n = self.children.len();
            let e1 = self.setup_events(level);
            let own = EventModel::Batch { batch: self, auto_scissor };
            let e2 = seq![own];
            let e3 = self.push_events(auto_scissor);
            let e4 = self.events_below(n, child, cull, hints, at + 1);
            let e5 = self.pop_events(auto_scissor);
            let e6 = self.cleanup_events(level);
            lemma_walk_concat(w, e1 + e2 + e3 + e4 + e5, e6);
            lemma_walk_concat(w, e1 + e2 + e3 + e4, e5);
            lemma_walk_concat(w, e1 + e2 + e3, e4);
            lemma_walk_concat(w, e1 + e2, e3);
            lemma_walk_concat(w, e1, e2);
            lemma_walk_masks(w, e1);
            lemma_walk_one(w, own);
            let w2 = w.after(own);
            let w3 = w2.after_all(e3);
            let cuts = self.child_cuts(w.open, hints[at]);
            if e3.len() > 0 {
                lemma_walk_one(w2, e3[0]);
                assert(e3 =~= seq![e3[0]]);
                assert(w3.open == cuts);
            }
            assert(w3.drawn == w2.drawn);
            self.lemma_children_drawn(n, child, cull, hints, at + 1, w3);
            let w4 = w3.after_all(e4);
            let below = self.tree_drawn_below(n, cuts, cull, hints, at + 1);
            assert(w4.drawn =~= w.drawn + (seq![(self, w.open)] + below));
            if e5.len() > 0 {
                lemma_walk_one(w4, e5[0]);
                assert(e5 =~= seq![e5[0]]);
            }
            let w5 = w4.after_all(e5);
            assert(w5.open =~= w.open);
            lemma_walk_masks(w5, e6);
        }
    }

    proof fn lemma_children_drawn(
        self,
        n: nat,
        level: int,
        cull: bool,
        hints: Seq<BatchHint>,
        at: int,
        w: Walk,
    )
        requires
            n <= self.children.len(),
        ensures
            w.after_all(self.events_below(n, level, cull, hints, at)) == (Walk {
                open: w.open,
                drawn: w.drawn + self.tree_drawn_below(n, w.open, cull, hints, at),
            }),
        decreases self, n,
    {
        if n == 0 {
            assert(w.drawn + seq![] =~= w.drawn);
        } else {
            let m = (n - 1) as nat;
            let place = at + self.preorder_below(m).len();
            let first = self.events_below(m, level, cull, hints, at);
            let last = self.children[m as int].events(level, cull, hints, place);
            lemma_walk_concat(w, first, last);
            self.lemma_children_drawn(m, level, cull, hints, at, w);
            self.children[m as int].lemma_subtree_drawn(
                level,
                cull,
                hints,
                place,
                w.after_all(first),
            );
            assert(w.drawn + self.tree_drawn_below(m, w.open, cull, hints, at)
                + self.children[m as int].tree_drawn(w.open, cull, hints, place) =~= w.drawn
                + self.tree_drawn_below(n, w.open, cull, hints, at));
        }
    }

    /// Law: where nothing is left out as off the screen, all batches of a subtree
    /// are drawn, each before its children and the children in order.
    pub proof fn lemma_all_drawn(self, open: Seq<Rect>, hints: Seq<BatchHint>, at: int)
        ensures
            batches(self.tree_drawn(open, false, hints, at)) == self.preorder(),
        decreases self, self.children.len() + 1,
    {
        let cuts = self.child_cuts(open, hints[at]);
        let n = self.children.len();
        self.lemma_all_drawn_below(n, cuts, hints, at + 1);
        assert(batches(self.tree_drawn(open, false, hints, at)) =~= seq![self] + batches(
            self.tree_drawn_below(n, cuts, false, hints, at + 1),
        ));
    }

    proof fn lemma_all_drawn_below(
        self,
        n: nat,
        open: Seq<Rect>,
        hints: Seq<BatchHint>,
        at: int,
    )
        requires
            n <= self.children.len(),
        ensures
            batches(self.tree_drawn_below(n, open, false, hints, at)) == self.preorder_below(n),
        decreases self, n,
    {
        if n == 0 {
            assert(batches(self.tree_drawn_below(n, open, false, hints, at)) =~= seq![]);
        } else {
            let m = (n - 1) as nat;
            let place = at + self.preorder_below(m).len();
            self.lemma_all_drawn_below(m, open, hints, at);
            self.children[m as int].lemma_all_drawn(open, hints, place);
            assert(batches(self.tree_drawn_below(n, open, false, hints, at)) =~= batches(
                self.tree_drawn_below(m, open, false, hints, at),
            ) + batches(self.children[m as int].tree_drawn(open, false, hints, place)));
        }
    }
}

/// The batches without their rectangles.
pub open spec fn batches(drawn: Seq<(BatchModel, Seq<Rect>)>) -> Seq<BatchModel> {
    drawn.map_values(|d: (BatchModel, Seq<Rect>)| d.0)
}

/// The batches of the first `n` trees that are drawn, with the rectangles on
/// their way.
pub open spec fn forest_drawn(
    roots: Seq<BatchModel>,
    n: nat,
    cull: bool,
    hints: Seq<BatchHint>,
) -> Seq<(BatchModel, Seq<Rect>)>
    decreases n,
    when n <= roots.len()
{
    if n == 0 {
        seq![]
    } else {
        forest_drawn(roots, (n - 1) as nat, cull, hints) + roots[n - 1].tree_drawn(
            seq![],
            cull,
            hints,
            flatten::forest_size(roots, (n - 1) as nat) as int,
        )
    }
}

/// Law: a frame draws its trees one after the other, each batch before its
/// children, and cuts each batch to the rectangles on its way and to no other.
pub proof fn lemma_frame_drawn(
    roots: Seq<BatchModel>,
    n: nat,
    cull: bool,
    hints: Seq<BatchHint>,
)
    requires
        n <= roots.len(),
    ensures
        Walk::start().after_all(flatten::forest_events(roots, n, cull, hints)) == (Walk {
            open: seq![],
            drawn: forest_drawn(roots, n, cull, hints),
        }),
    decreases n,
{
    if n > 0 {
        let m = (n - 1) as nat;
        lemma_frame_drawn(roots, m, cull, hints);
        let first = flatten::forest_events(roots, m, cull, hints);
        let at = flatten::forest_size(roots, m) as int;
        let last = roots[m as int].events(0, cull, hints, at);
        lemma_walk_concat(Walk::start(), first, last);
        roots[m as int].lemma_subtree_drawn(0, cull, hints, at, Walk::start().after_all(first));
    }
}

// ---------------------------------------------------------------------------
// The scissor of each draw
// ---------------------------------------------------------------------------

/// The whole target.
pub open spec fn whole(width: u32, height: u32) -> PixelRect {
    PixelRect { x: 0, y: 0, w: width, h: height }
}

/// What is left of the target after cutting it to some rectangles in turn.
pub open spec fn cut_to(
    open: Seq<Rect>,
    pixels: spec_fn(Rect) -> PixelBox,
    width: u32,
    height: u32,
) -> PixelRect
    decreases open.len(),
{
    if open.len() == 0 {
        whole(width, height)
    } else {
        cut_to(open.drop_last(), pixels, width, height).cut(pixels(open.last()))
    }
}

/// Whether a pixel lies in a box.
pub open spec fn in_box(b: PixelBox, px: int, py: int) -> bool {
    b.left <= px < b.right && b.top <= py < b.bottom
}

/// Law: what is left of the target has exactly its pixels that lie in all of the
/// rectangles.
pub proof fn lemma_cut_to_all(
    open: Seq<Rect>,
    pixels: spec_fn(Rect) -> PixelBox,
    width: u32,
    height: u32,
    px: int,
    py: int,
)
    ensures
        cut_to(open, pixels, width, height).fits(),
        cut_to(open, pixels, width, height).has(px, py) <==> 0 <= px < width && 0 <= py < height
            && (forall|i: int|
            0 <= i < open.len() ==> in_box(pixels(#[trigger] open[i]), px, py)),
    decreases open.len(),
{
    if open.len() > 0 {
        let rest = open.drop_last();
        lemma_cut_to_all(rest, pixels, width, height, px, py);
        pass::lemma_cut_is_intersection(
            cut_to(rest, pixels, width, height),
            pixels(open.last()),
            px,
            py,
        );
        let n = open.len() - 1;
        assert(open[n] == open.last());
        if cut_to(rest, pixels, width, height).has(px, py) && in_box(pixels(open.last()), px, py) {
            assert forall|i: int| 0 <= i < open.len() implies in_box(
                pixels(#[trigger] open[i]),
                px,
                py,
            ) by {
                if i < n {
                    assert(rest[i] == open[i]);
                }
            }
        }
        if forall|i: int| 0 <= i < open.len() ==> in_box(pixels(#[trigger] open[i]), px, py) {
            assert forall|i: int| 0 <= i < rest.len() implies in_box(
                pixels(#[trigger] rest[i]),
                px,
                py,
            ) by {
                assert(rest[i] == open[i]);
            }
        }
    }
}

/// The scissor that is set after some commands; the whole target before the
/// first is.
pub open spec fn scissor_set(cs: Seq<PassCommand>, width: u32, height: u32) -> PixelRect
    decreases cs.len(),
{
    if cs.len() == 0 {
        whole(width, height)
    } else {
        match cs.last() {
            PassCommand::SetScissor(r) => r,
            _ => scissor_set(cs.drop_last(), width, height),
        }
    }
}

proof fn lemma_scissor_stays(
    a: Seq<PassCommand>,
    b: Seq<PassCommand>,
    width: u32,
    height: u32,
)
    requires
        forall|i: int| 0 <= i < b.len() ==> !((#[trigger] b[i]) is SetScissor),
    ensures
        scissor_set(a + b, width, height) == scissor_set(a, width, height),
    decreases b.len(),
{
    if b.len() == 0 {
        assert(a + b =~= a);
    } else {
        let rest = b.drop_last();
        assert forall|i: int| 0 <= i < rest.len() implies !((#[trigger] rest[i]) is SetScissor) by {
            assert(rest[i] == b[i]);
        }
        lemma_scissor_stays(a, rest, width, height);
        assert((a + b).drop_last() =~= a + rest);
        assert((a + b).last() == b[b.len() - 1]);
    }
}

/// The boxes that a pass keeps for the rectangles that are cut to.
spec fn kept(
    open: Seq<Rect>,
    pixels: spec_fn(Rect) -> PixelBox,
    width: u32,
    height: u32,
) -> Seq<PixelRect> {
    Seq::new(open.len(), |i: int| cut_to(open.take(i + 1), pixels, width, height))
}

spec fn keeps(
    p: PassModel,
    open: Seq<Rect>,
    pixels: spec_fn(Rect) -> PixelBox,
    width: u32,
    height: u32,
) -> bool {
    p.scissors == kept(open, pixels, width, height) || p.scissors == seq![whole(width, height)]
        + kept(open, pixels, width, height)
}

proof fn lemma_kept_last(
    p: PassModel,
    open: Seq<Rect>,
    pixels: spec_fn(Rect) -> PixelBox,
    width: u32,
    height: u32,
)
    requires
        keeps(p, open, pixels, width, height),
    ensures
        p.scissor(width, height) == cut_to(open, pixels, width, height),
{
    if open.len() > 0 {
        assert(open.take(open.len() as int) =~= open);
    }
}

/// Whether a pass knows of the rectangles of its events: the box of each that is
/// cut to, and where that ends.
pub open spec fn knows_cuts(
    infos: Seq<InfoModel>,
    events: Seq<EventModel>,
    pixels: spec_fn(Rect) -> PixelBox,
) -> bool {
    &&& infos.len() == events.len()
    &&& forall|i: int|
        0 <= i < infos.len() ==> {
            &&& (#[trigger] infos[i]).scissor_push == match events[i] {
                EventModel::ScissorPush(r) => Some(pixels(r)),
                _ => None,
            }
            &&& infos[i].scissor_pop == (events[i] is ScissorPop)
        }
}

/// Law: what a pass is told of a frame has its rectangles, if it is told the box
/// of each.
pub proof fn lemma_infos_know_cuts(
    events: Seq<EventModel>,
    uses: Seq<StencilUse>,
    shapes: Seq<Option<ShapeModel>>,
    boxes: Seq<Option<PixelBox>>,
    texts: Seq<Seq<TextureSegment>>,
    pixels: spec_fn(Rect) -> PixelBox,
)
    requires
        boxes.len() == events.len(),
        forall|i: int|
            0 <= i < events.len() ==> (#[trigger] events[i] matches EventModel::ScissorPush(r)
                ==> boxes[i] == Some(pixels(r))),
    ensures
        knows_cuts(renderer::infos_of(events, uses, shapes, boxes, texts), events, pixels),
{
}

proof fn lemma_scissor_part(
    p: PassModel,
    w: Walk,
    info: InfoModel,
    e: EventModel,
    cs: Seq<PassCommand>,
    pixels: spec_fn(Rect) -> PixelBox,
    width: u32,
    height: u32,
)
    requires
        keeps(p, w.open, pixels, width, height),
        scissor_set(cs, width, height) == p.scissor(width, height),
        info.scissor_push == (match e {
            EventModel::ScissorPush(r) => Some(pixels(r)),
            _ => None,
        }),
        info.scissor_pop == (e is ScissorPop),
    ensures
        keeps(p.scissor_part(info, width, height).1, w.after(e).open, pixels, width, height),
        scissor_set(cs + p.scissor_part(info, width, height).0, width, height)
            == p.scissor_part(info, width, height).1.scissor(width, height),
        forall|i: int|
            0 <= i < p.scissor_part(info, width, height).0.len() ==> (
            #[trigger] p.scissor_part(info, width, height).0[i]) is SetScissor,
{
    let part = p.scissor_part(info, width, height);
    let open = w.after(e).open;
    lemma_kept_last(p, w.open, pixels, width, height);
    match e {
        EventModel::ScissorPush(r) => {
            assert(open.drop_last() =~= w.open);
            assert forall|i: int| 0 <= i < w.open.len() implies #[trigger] open.take(i + 1)
                =~= w.open.take(i + 1) by {}
            assert(open.take(open.len() as int) =~= open);
            let r = cut_to(open, pixels, width, height);
            assert(kept(open, pixels, width, height) =~= kept(
                w.open,
                pixels,
                width,
                height,
            ).push(r));
            assert(part.1.scissors =~= p.scissors.push(r));
            if p.scissors == kept(w.open, pixels, width, height) {
                assert(part.1.scissors =~= kept(open, pixels, width, height));
            } else {
                assert(part.1.scissors =~= seq![whole(width, height)] + kept(
                    open,
                    pixels,
                    width,
                    height,
                ));
            }
            assert((cs + part.0).last() == part.0[0]);
        },
        EventModel::ScissorPop => {
            if w.open.len() > 0 {
                assert forall|i: int| 0 <= i < open.len() implies #[trigger] open.take(i + 1)
                    =~= w.open.take(i + 1) by {}
                assert(kept(open, pixels, width, height) =~= kept(
                    w.open,
                    pixels,
                    width,
                    height,
                ).drop_last());
                if p.scissors == kept(w.open, pixels, width, height) {
                    assert(part.1.scissors =~= kept(open, pixels, width, height));
                } else {
                    assert(part.1.scissors =~= seq![whole(width, height)] + kept(
                        open,
                        pixels,
                        width,
                        height,
                    ));
                }
            } else {
                assert(part.1.scissors =~= kept(open, pixels, width, height));
            }
            assert((cs + part.0).last() == part.0[0]);
        },
        _ => {
            assert(cs + part.0 =~= cs);
        },
    }
}

proof fn lemma_parts_set_no_scissor(
    p: PassModel,
    info: InfoModel,
    event: usize,
    uses_stencil: bool,
)
    ensures
        forall|i: int|
            0 <= i < p.shape_part(info, event, uses_stencil).0.len() ==> !((
            #[trigger] p.shape_part(info, event, uses_stencil).0[i]) is SetScissor),
        forall|i: int|
            0 <= i < p.text_part(info, event, uses_stencil).0.len() ==> !((
            #[trigger] p.text_part(info, event, uses_stencil).0[i]) is SetScissor),
        p.shape_part(info, event, uses_stencil).1.scissors == p.scissors,
        p.text_part(info, event, uses_stencil).1.scissors == p.scissors,
{
}

/// Law: whatever draws an event finds the scissor set to what is left of the
/// target after cutting it to the rectangles that are open at the event.
pub proof fn lemma_draws_are_cut(
    infos: Seq<InfoModel>,
    events: Seq<EventModel>,
    pixels: spec_fn(Rect) -> PixelBox,
    uses_stencil: bool,
    width: u32,
    height: u32,
    j: int,
)
    requires
        infos.len() <= usize::MAX,
        knows_cuts(infos, events, pixels),
        0 <= j < pass::pass_of(infos, uses_stencil, width, height).0.len(),
        drawn_part(pass::pass_of(infos, uses_stencil, width, height).0[j]) is Some,
    ensures
        ({
            let cs = pass::pass_of(infos, uses_stencil, width, height).0;
            let (event, part) = drawn_part(cs[j])->0;
            scissor_set(cs.take(j), width, height) == cut_to(
                Walk::start().after_all(events.take(event + 1)).open,
                pixels,
                width,
                height,
            )
        }),
{
    lemma_pass_cuts(infos, events, pixels, uses_stencil, width, height);
    assert(is_cut(
        pass::pass_of(infos, uses_stencil, width, height).0,
        events,
        pixels,
        width,
        height,
        j,
    ));
}

spec fn is_cut(
    cs: Seq<PassCommand>,
    events: Seq<EventModel>,
    pixels: spec_fn(Rect) -> PixelBox,
    width: u32,
    height: u32,
    j: int,
) -> bool {
    match drawn_part(cs[j]) {
        Some((event, _)) => scissor_set(cs.take(j), width, height) == cut_to(
            Walk::start().after_all(events.take(event + 1)).open,
            pixels,
            width,
            height,
        ),
        None => true,
    }
}

proof fn lemma_earlier_is_cut(
    before: Seq<PassCommand>,
    more: Seq<PassCommand>,
    events: Seq<EventModel>,
    pixels: spec_fn(Rect) -> PixelBox,
    width: u32,
    height: u32,
    j: int,
)
    requires
        events.len() > 0,
        0 <= j < before.len(),
        is_cut(before, events.drop_last(), pixels, width, height, j),
        drawn_part(before[j]) matches Some((e, _)) ==> e < events.len() - 1,
    ensures
        is_cut(before + more, events, pixels, width, height, j),
{
    assert((before + more)[j] == before[j]);
    assert((before + more).take(j) =~= before.take(j));
    if let Some((e, _)) = drawn_part(before[j]) {
        assert(events.take(e + 1) =~= events.drop_last().take(e + 1));
    }
}

proof fn lemma_last_is_cut(
    head: Seq<PassCommand>,
    tail: Seq<PassCommand>,
    events: Seq<EventModel>,
    pixels: spec_fn(Rect) -> PixelBox,
    width: u32,
    height: u32,
    k: int,
)
    requires
        events.len() > 0,
        0 <= k < tail.len(),
        forall|i: int| 0 <= i < tail.len() ==> !((#[trigger] tail[i]) is SetScissor),
        drawn_part(tail[k]) matches Some((e, _)) ==> e == events.len() - 1,
        scissor_set(head, width, height) == cut_to(
            Walk::start().after_all(events).open,
            pixels,
            width,
            height,
        ),
    ensures
        is_cut(head + tail, events, pixels, width, height, head.len() + k),
{
    let cs = head + tail;
    let some = tail.take(k);
    assert forall|i: int| 0 <= i < some.len() implies !((#[trigger] some[i]) is SetScissor) by {
        assert(some[i] == tail[i]);
    }
    lemma_scissor_stays(head, some, width, height);
    assert(cs.take(head.len() + k) =~= head + some);
    assert(cs[head.len() + k] == tail[k]);
    assert(events.take(events.len() as int) =~= events);
}

spec fn all_cut(
    cs: Seq<PassCommand>,
    events: Seq<EventModel>,
    pixels: spec_fn(Rect) -> PixelBox,
    width: u32,
    height: u32,
) -> bool {
    forall|j: int|
        0 <= j < cs.len() ==> #[trigger] is_cut(cs, events, pixels, width, height, j)
}

spec fn draws_below(cs: Seq<PassCommand>, event: int) -> bool {
    forall|j: int|
        0 <= j < cs.len() ==> (drawn_part(#[trigger] cs[j]) matches Some((e, _)) ==> e < event)
}

#[verifier::rlimit(60)]
proof fn lemma_event_cuts(
    cs: Seq<PassCommand>,
    p: PassModel,
    info: InfoModel,
    event: usize,
    events: Seq<EventModel>,
    pixels: spec_fn(Rect) -> PixelBox,
    uses_stencil: bool,
    width: u32,
    height: u32,
)
    requires
        events.len() == event + 1,
        keeps(p, Walk::start().after_all(events.drop_last()).open, pixels, width, height),
        scissor_set(cs, width, height) == p.scissor(width, height),
        all_cut(cs, events.drop_last(), pixels, width, height),
        draws_below(cs, event as int),
        info.scissor_push == (match events.last() {
            EventModel::ScissorPush(r) => Some(pixels(r)),
            _ => None,
        }),
        info.scissor_pop == (events.last() is ScissorPop),
    ensures
        ({
            let part = p.event_part(info, event, uses_stencil, width, height);
            &&& keeps(part.1, Walk::start().after_all(events).open, pixels, width, height)
            &&& scissor_set(cs + part.0, width, height) == part.1.scissor(width, height)
            &&& all_cut(cs + part.0, events, pixels, width, height)
            &&& draws_below(cs + part.0, event + 1)
        }),
{
    let w = Walk::start().after_all(events.drop_last());
    let a = p.scissor_part(info, width, height);
    let b = a.1.shape_part(info, event, uses_stencil);
    let c = b.1.text_part(info, event, uses_stencil);
    lemma_scissor_part(p, w, info, events.last(), cs, pixels, width, height);
    lemma_parts_set_no_scissor(a.1, info, event, uses_stencil);
    lemma_parts_set_no_scissor(b.1, info, event, uses_stencil);
    lemma_event_ranked(a.1, info, event, uses_stencil);
    lemma_event_ranked(b.1, info, event, uses_stencil);
    let open = Walk::start().after_all(events).open;
    assert(open == w.after(events.last()).open);
    lemma_kept_last(a.1, open, pixels, width, height);
    let head = cs + a.0;
    let tail = b.0 + c.0;
    let all = cs + (a.0 + b.0 + c.0);
    assert(all =~= head + tail);
    assert forall|i: int| 0 <= i < tail.len() implies !((#[trigger] tail[i]) is SetScissor) && (
    drawn_part(tail[i]) matches Some((e, _)) ==> e == event) by {
        if i < b.0.len() {
            assert(tail[i] == b.0[i]);
        } else {
            assert(tail[i] == c.0[i - b.0.len()]);
        }
    }
    lemma_scissor_stays(head, tail, width, height);
    assert forall|j: int| 0 <= j < all.len() implies #[trigger] is_cut(
        all,
        events,
        pixels,
        width,
        height,
        j,
    ) && (drawn_part(all[j]) matches Some((e, _)) ==> e < event + 1) by {
        if j < cs.len() {
            assert(is_cut(cs, events.drop_last(), pixels, width, height, j));
            assert(all[j] == cs[j]);
            lemma_earlier_is_cut(cs, a.0 + b.0 + c.0, events, pixels, width, height, j);
        } else if j < head.len() {
            assert(all[j] == a.0[j - cs.len()]);
        } else {
            assert(all[j] == tail[j - head.len()]);
            lemma_last_is_cut(head, tail, events, pixels, width, height, j - head.len());
        }
    }
    assert forall|j: int| 0 <= j < all.len() implies (drawn_part(#[trigger] all[j]) matches Some(
        (e, _),
    ) ==> e < event + 1) by {
        assert(is_cut(all, events, pixels, width, height, j));
    }
}

proof fn lemma_pass_cuts(
    infos: Seq<InfoModel>,
    events: Seq<EventModel>,
    pixels: spec_fn(Rect) -> PixelBox,
    uses_stencil: bool,
    width: u32,
    height: u32,
)
    requires
        infos.len() <= usize::MAX,
        knows_cuts(infos, events, pixels),
    ensures
        ({
            let pass = pass::pass_of(infos, uses_stencil, width, height);
            &&& keeps(pass.1, Walk::start().after_all(events).open, pixels, width, height)
            &&& scissor_set(pass.0, width, height) == pass.1.scissor(width, height)
            &&& all_cut(pass.0, events, pixels, width, height)
            &&& draws_below(pass.0, infos.len() as int)
        }),
    decreases infos.len(),
{
    if infos.len() == 0 {
        assert(kept(seq![], pixels, width, height) =~= seq![]);
        assert(seq![whole(width, height)] + kept(seq![], pixels, width, height) =~= seq![
            whole(width, height),
        ]);
        assert(events =~= seq![]);
    } else {
        let rest = infos.drop_last();
        let earlier = events.drop_last();
        assert forall|i: int| 0 <= i < rest.len() implies {
            &&& (#[trigger] rest[i]).scissor_push == match earlier[i] {
                EventModel::ScissorPush(r) => Some(pixels(r)),
                _ => None,
            }
            &&& rest[i].scissor_pop == (earlier[i] is ScissorPop)
        } by {
            assert(rest[i] == infos[i] && earlier[i] == events[i]);
        }
        lemma_pass_cuts(rest, earlier, pixels, uses_stencil, width, height);
        let before = pass::pass_of(rest, uses_stencil, width, height);
        let event = (infos.len() - 1) as usize;
        assert(infos[infos.len() - 1] == infos.last());
        lemma_event_cuts(
            before.0,
            before.1,
            infos.last(),
            event,
            events,
            pixels,
            uses_stencil,
            width,
            height,
        );
    }
}

} // verus!
