//! What holds of every decision on the way from a tree of batches to commands: what
//! is left out, what is cut, what tests the stencil, and what is drawn with what.

use vstd::prelude::*;
use crate::area::{Area, AreaGeom, AreaStencilOp};
use crate::batch::{BatchModel, DrawBatch};
use crate::flatten;
use crate::flatten::{BatchHint, DrawEvent, EventModel};
use crate::geometry::Rect;
use crate::pass;
use crate::pass::{
    cut, material_text_op, plan_pass, text_mode, text_reference, EventInfo, InfoModel, PassCommand,
    PassModel, PixelBox, PixelRect, ShapePipeline, TextStencilMode,
};
use crate::stencil;
use crate::stencil::{has_content, plan_stencil, uses_stencil, LevelModel, StencilUse};

verus! {

// ---------------------------------------------------------------------------
// Areas
// ---------------------------------------------------------------------------

/// Law: a step that covers raises and one that erases lowers, at its level, for its
/// geometry or for the whole screen.
pub proof fn lemma_steps_are_what_they_say(
    op: AreaStencilOp,
    geom: AreaGeom,
    at: u32,
    kind: u32,
    level: u32,
    full: bool,
)
    requires
        call_ensures(AreaStencilOp::stencil_pipeline_op, (&op,), kind),
        call_ensures(AreaStencilOp::stencil_ref, (&op,), level),
        call_ensures(AreaStencilOp::is_fullscreen, (&op,), full),
    ensures
        op == (AreaStencilOp::CoverGeom { geom, stencil_ref: at }) ==> kind == 4 && level == at
            && !full && op@.geom == Some(geom@) && op@.cover && op@.at == at,
        op == (AreaStencilOp::EraseGeom { geom, stencil_ref: at }) ==> kind == 3 && level == at
            && !full && op@.geom == Some(geom@) && !op@.cover && op@.at == at,
        op == (AreaStencilOp::CoverFull { stencil_ref: at }) ==> kind == 4 && level == at && full
            && op@.geom is None && op@.cover && op@.at == at,
        op == (AreaStencilOp::EraseFull { stencil_ref: at }) ==> kind == 3 && level == at && full
            && op@.geom is None && !op@.cover && op@.at == at,
{
}

/// Law: a geometry without vertices or without triangles is empty, and it is plain
/// if it has no distance fields and feathers nothing; its parts are its own.
pub proof fn lemma_geometry_is_its_parts(g: AreaGeom, empty: bool, plain: bool)
    requires
        call_ensures(AreaGeom::is_empty, (&g,), empty),
        call_ensures(AreaGeom::geometry_mode, (&g,), plain),
    ensures
        empty <==> g.vertices@.len() == 0 || g.indices@.len() == 0,
        plain <==> !g.has_sdf && g.sdf_feather is None,
        g@.vertices == g.vertices@,
        g@.indices == g.indices@,
        g@.transform_table == g.transform_table@,
        g@.polygon_edges == g.polygon_edges@,
        g@.has_sdf == g.has_sdf,
        g@.sdf_feather == g.sdf_feather,
{
}

/// Law: only everything is full and only nothing is empty; a geometry that draws
/// nothing is nothing.
pub proof fn lemma_full_and_empty(a: Area, g: AreaGeom, of: Area, full: bool, empty: bool)
    requires
        call_ensures(Area::is_full, (&a,), full),
        call_ensures(Area::is_empty, (&a,), empty),
        call_ensures(Area::geom, (g,), of),
    ensures
        full <==> a@ is Full,
        empty <==> a@ is Empty,
        call_ensures(Area::full, (), a) ==> full,
        call_ensures(Area::empty, (), a) ==> empty,
        g.vertices@.len() == 0 || g.indices@.len() == 0 ==> of@ is Empty,
        g.vertices@.len() > 0 && g.indices@.len() > 0 ==> of@ == crate::area::AreaModel::Geom(g@),
{
}

// ---------------------------------------------------------------------------
// What is left out, what is cut
// ---------------------------------------------------------------------------

/// Law: a subtree is left out exactly if what is off the screen is to be left out,
/// the batch does not forbid it, and the bounds that it was given, or else those
/// that were found, are known to be off the screen.
pub proof fn lemma_when_subtree_is_left_out(
    b: BatchModel,
    level: int,
    cull: bool,
    hints: Seq<BatchHint>,
    at: int,
)
    ensures
        b.events(level, cull, hints, at).len() == 0 <==> cull && ((b.bounds matches Some(Some(_))
            && !hints[at].bounds_on_screen) || (b.bounds == Some(None::<Rect>)
            && hints[at].computed_on_screen == Some(false))),
{
}

/// Law: a batch is a plain rectangle only with four vertices in one row, two
/// triangles and no distance fields.
pub proof fn lemma_which_batches_are_rectangles(
    b: DrawBatch,
    hint: BatchHint,
    row: Option<u32>,
    r: Option<Rect>,
)
    requires
        call_ensures(DrawBatch::rectangle_row, (&b,), row),
        call_ensures(DrawBatch::auto_scissor, (&b, &hint), r),
    ensures
        row is Some <==> !b.has_sdf && b.sdf_feather is None && b.vertices@.len() == 4
            && b.indices@.len() == 6 && b.vertices@[0].sdf_type == 0 && b.vertices@[1].sdf_type
            == 0 && b.vertices@[2].sdf_type == 0 && b.vertices@[3].sdf_type == 0
            && b.vertices@[0].transform_index == b.vertices@[1].transform_index
            && b.vertices@[0].transform_index == b.vertices@[2].transform_index
            && b.vertices@[0].transform_index == b.vertices@[3].transform_index,
        row is Some ==> row->0 == b.vertices@[0].transform_index,
        row is Some ==> r == hint.rectangle,
        row is None ==> r is None,
{
    let v = b@.vertices;
    if v.len() == 4 {
        assert(v[0].sdf_type == 0 || v[0].sdf_type != 0);
        assert(v[1].sdf_type == 0 || v[1].sdf_type != 0);
        assert(v[2].sdf_type == 0 || v[2].sdf_type != 0);
        assert(v[3].sdf_type == 0 || v[3].sdf_type != 0);
    }
}

/// Law: children are cut by a rectangle if one is given or if the batch clips them
/// and is a rectangle, but never where the batch has an area.
pub proof fn lemma_when_children_are_cut(
    b: DrawBatch,
    has_area: bool,
    found: Option<Rect>,
    r: bool,
)
    requires
        has_area == b@.has_area(),
        call_ensures(DrawBatch::uses_scissor_path, (&b, has_area, found), r),
    ensures
        has_area ==> !r,
        !has_area && b.scissor is Some ==> r,
        !has_area && b.scissor is None ==> (r <==> b.clips_children && found is Some),
{
}

/// Law: a batch that is not left out stands behind the steps that cover its area,
/// and its own area is erased last. With children and a rectangle to cut them by,
/// the rectangle that was given, or else the one that the batch is, is opened right
/// behind the batch and closed behind the children. A batch that clips its children
/// by its shapes lowers them again behind the children.
pub proof fn lemma_what_stands_round_batch(
    b: BatchModel,
    level: int,
    hints: Seq<BatchHint>,
    at: int,
)
    ensures
        ({
            let e = b.events(level, false, hints, at);
            let found = b.auto_scissor(hints[at]);
            let cut = !b.has_area() && (b.scissor is Some || (b.clips_children && found is Some));
            let n = if b.has_area() {
                b.effective_area()->0.cover_ops(level).len() as int
            } else {
                0
            };
            let m = if b.has_area() {
                b.effective_area()->0.erase_ops(level + 1).len() as int
            } else {
                0
            };
            &&& n + m < e.len()
            &&& e[n] == (EventModel::Batch { batch: b, auto_scissor: found })
            &&& forall|i: int|
                0 <= i < n ==> (#[trigger] e[i] matches EventModel::AreaOp { op, is_setup, closes }
                    && op == b.effective_area()->0.cover_ops(level)[i] && is_setup && !closes)
            &&& forall|i: int|
                e.len() - m <= i < e.len() ==> (#[trigger] e[i] matches EventModel::AreaOp {
                    op,
                    is_setup,
                    closes,
                } && op == b.effective_area()->0.erase_ops(level + 1)[i - (e.len() - m)]
                    && !is_setup && (closes <==> i == e.len() - 1))
            &&& cut && b.children.len() > 0 && b.scissor is Some ==> e[n + 1]
                == EventModel::ScissorPush(b.scissor->0)
            &&& cut && b.children.len() > 0 && b.scissor is None ==> e[n + 1]
                == EventModel::ScissorPush(found->0)
            &&& cut && b.children.len() > 0 ==> e[e.len() - m - 1] is ScissorPop
            &&& !cut && b.clips_children && (b.vertices.len() > 0 || b.instances.len() > 0)
                ==> e[e.len() - m - 1] is StencilPop
            &&& b.children.len() == 0 && (cut || !b.clips_children || (b.vertices.len() == 0
                && b.instances.len() == 0)) ==> e.len() == n + m + 1
        }),
{
    let e = b.events(level, false, hints, at);
    let found = b.auto_scissor(hints[at]);
    let setup = b.setup_events(level);
    let own = seq![EventModel::Batch { batch: b, auto_scissor: found }];
    let push = b.push_events(found);
    let below = b.events_below(
        b.children.len(),
        b.child_level(found, level),
        false,
        hints,
        at + 1,
    );
    let pop = b.pop_events(found);
    let cleanup = b.cleanup_events(level);
    assert(e == setup + own + push + below + pop + cleanup);
    let n = setup.len() as int;
    assert(forall|i: int| 0 <= i < n ==> e[i] == #[trigger] setup[i]);
    assert(e[n] == own[0]);
    if push.len() > 0 {
        assert(e[n + 1] == push[0]);
    }
    let m = cleanup.len() as int;
    assert(forall|i: int| e.len() - m <= i < e.len() ==> #[trigger] e[i] == cleanup[i - (e.len()
        - m)]);
    if pop.len() > 0 {
        assert(e[e.len() - m - 1] == pop[0]);
    }
    assert forall|i: int| 0 <= i < n implies (#[trigger] e[i] matches EventModel::AreaOp {
        op,
        is_setup,
        closes,
    } && op == b.effective_area()->0.cover_ops(level)[i] && is_setup && !closes) by {
        assert(e[i] == setup[i]);
    }
}

/// Law: the trees of a frame follow each other, each from level 0, and their hints
/// are taken in order.
pub proof fn lemma_trees_follow_each_other(
    roots: Seq<BatchModel>,
    cull: bool,
    hints: Seq<BatchHint>,
    k: int,
)
    requires
        0 <= k < roots.len(),
    ensures
        flatten::forest_events(roots, 0, cull, hints).len() == 0,
        flatten::forest_size(roots, 0) == 0,
        flatten::forest_size(roots, (k + 1) as nat) == flatten::forest_size(roots, k as nat)
            + roots[k].preorder().len(),
        ({
            let before = flatten::forest_events(roots, k as nat, cull, hints);
            let after = flatten::forest_events(roots, (k + 1) as nat, cull, hints);
            let own = roots[k].events(0, cull, hints, flatten::forest_size(roots, k as nat) as int);
            &&& before.is_prefix_of(after)
            &&& own.is_suffix_of(after)
            &&& after.len() == before.len() + own.len()
        }),
{
}

// ---------------------------------------------------------------------------
// The stencil
// ---------------------------------------------------------------------------

/// The level that an event finds: how many clips and masks are open.
pub open spec fn found_level(events: Seq<EventModel>, k: int) -> int {
    stencil::levels_after(events.take(k), LevelModel::start()).level()
}

proof fn lemma_one_use_each(events: Seq<EventModel>, start: LevelModel)
    ensures
        stencil::uses_of(events, start).len() == events.len(),
    decreases events.len(),
{
    if events.len() > 0 {
        lemma_one_use_each(events.drop_last(), start);
    }
}

proof fn lemma_use_at(events: Seq<EventModel>, start: LevelModel, k: int)
    requires
        0 <= k < events.len(),
    ensures
        stencil::uses_of(events, start)[k] == stencil::levels_after(
            events.take(k),
            start,
        ).event_use(events[k]),
    decreases events.len(),
{
    let rest = events.drop_last();
    lemma_one_use_each(rest, start);
    if k < rest.len() {
        lemma_use_at(rest, start, k);
        assert(rest.take(k) =~= events.take(k));
    } else {
        assert(events.take(k) =~= rest);
    }
}

/// Law: a batch that clips its children by its shapes draws and raises them at the
/// level that it finds, its own area counted in; any other that has something to
/// draw and is clipped tests that level if there is one; and the rest leaves the
/// stencil alone. Steps of a mask raise or lower at their own level.
pub proof fn lemma_how_events_use_stencil(events: Vec<DrawEvent>, r: Vec<StencilUse>, k: int)
    requires
        2 * events@.len() < u32::MAX,
        call_ensures(plan_stencil, (&events,), r),
        0 <= k < events@.len(),
    ensures
        r@.len() == events@.len(),
        ({
            let models = flatten::event_models(events@);
            let e = models[k];
            let u = r@[k];
            &&& e is AreaOp ==> u.area && u.op == (if e->op.cover {
                4u32
            } else {
                3u32
            }) && (0 <= e->op.at <= u32::MAX ==> u.reference == e->op.at)
            &&& e is StencilPop ==> u.op == 3 && !u.area
            &&& e is ScissorPush || e is ScissorPop ==> u.op == 0 && !u.area
            &&& e is Batch ==> {
                let b = e->batch;
                let shapes = b.vertices.len() > 0 || b.instances.len() > 0;
                let cut = !b.has_area() && (b.scissor is Some || (b.clips_children
                    && e->Batch_auto_scissor is Some));
                let level = found_level(models, k) + (if b.has_area() {
                    1int
                } else {
                    0int
                });
                &&& !u.area
                &&& u.op == 1 <==> b.clips_children && shapes && !cut
                &&& u.op == 2 <==> !(b.clips_children && shapes && !cut) && level > 0
                    && b.inherit.clipped && (shapes || b.texts.len() > 0)
                &&& u.op <= 2
                &&& u.op != 0 && 0 <= level <= u32::MAX ==> u.reference == level
            }
        }),
{
    let models = flatten::event_models(events@);
    lemma_one_use_each(models, LevelModel::start());
    lemma_use_at(models, LevelModel::start(), k);
}

/// Law: every event leaves as many clips and masks open as it opened: a batch opens
/// one for its shapes if it clips by them and one for its area, a pop and the last
/// step of a mask close one each, and nothing else does.
pub proof fn lemma_how_levels_change(events: Seq<EventModel>, k: int)
    requires
        0 <= k < events.len(),
    ensures
        found_level(events, 0) == 0,
        ({
            let e = events[k];
            let was = found_level(events, k);
            let now = found_level(events, k + 1);
            &&& e is ScissorPush || e is ScissorPop ==> now == was
            &&& e is AreaOp && !e->closes ==> now == was
            &&& e is AreaOp && e->closes ==> now == was || now == was - 1
            &&& e is StencilPop ==> now == was || now == was - 1
            &&& e is Batch ==> {
                let b = e->batch;
                let cut = !b.has_area() && (b.scissor is Some || (b.clips_children
                    && e->Batch_auto_scissor is Some));
                now - was == (if b.has_area() {
                    1int
                } else {
                    0int
                }) + (if b.clips_children && (b.vertices.len() > 0 || b.instances.len() > 0)
                    && !cut {
                    1int
                } else {
                    0int
                })
            }
        }),
{
    assert(events.take(0) =~= seq![]);
    assert(events.take(k + 1).drop_last() =~= events.take(k));
}

/// Law: a frame needs the stencil buffer if some event is a pop or a mask step, and
/// has something to do if it clears or some batch has shapes or texts.
pub proof fn lemma_what_frames_need(events: Vec<DrawEvent>, clears: bool, s: bool, c: bool, k: int)
    requires
        call_ensures(uses_stencil, (&events,), s),
        call_ensures(has_content, (&events, clears), c),
        0 <= k < events@.len(),
    ensures
        events@[k] is StencilPop || events@[k] is AreaOp ==> s,
        (forall|j: int|
            0 <= j < events@.len() ==> !(#[trigger] events@[j] is StencilPop) && !(
            events@[j] is AreaOp)) ==> !s,
        clears ==> c,
        events@[k] is Batch && (events@[k]->batch.vertices@.len() > 0
            || events@[k]->batch.instances@.len() > 0 || events@[k]->batch.texts@.len() > 0) ==> c,
        !clears && (forall|j: int|
            0 <= j < events@.len() && (#[trigger] events@[j]) is Batch
                ==> events@[j]->batch.vertices@.len() == 0 && events@[j]->batch.instances@.len()
                == 0 && events@[j]->batch.texts@.len() == 0) ==> !c,
{
    let models = flatten::event_models(events@);
    assert(models[k] == events@[k]@);
    assert forall|j: int| 0 <= j < events@.len() implies (#[trigger] models[j]) == events@[j]@ by {}
}

// ---------------------------------------------------------------------------
// The pass
// ---------------------------------------------------------------------------

/// Law: cutting a box keeps exactly the pixels that lie in both.
pub proof fn lemma_cut_keeps_common_pixels(
    r: PixelRect,
    b: PixelBox,
    c: PixelRect,
    px: int,
    py: int,
)
    requires
        r.x + r.w <= u32::MAX,
        r.y + r.h <= u32::MAX,
        call_ensures(cut, (r, b), c),
    ensures
        (c.x <= px < c.x + c.w && c.y <= py < c.y + c.h) <==> (r.x <= px < r.x + r.w && r.y <= py
            < r.y + r.h && b.left <= px < b.right && b.top <= py < b.bottom),
{
}

/// Law: texts test the stencil where their event does or is a mask step, at the
/// level that its shapes have raised to; without a stencil buffer they do not.
pub proof fn lemma_texts_test_as_their_event(
    info: EventInfo,
    on: bool,
    mode: TextStencilMode,
    level: u32,
    kind: u32,
)
    requires
        info.stencil.reference < u32::MAX,
        call_ensures(text_mode, (&info, on), mode),
        call_ensures(text_reference, (&info,), level),
        call_ensures(material_text_op, (info.stencil, on), kind),
    ensures
        !on <==> mode == TextStencilMode::Off,
        mode == TextStencilMode::Test <==> on && (info.stencil.area || info.stencil.op == 1
            || info.stencil.op == 2),
        kind == 2 <==> mode == TextStencilMode::Test,
        kind == 2 || kind == 0,
        info.stencil.op == 1 ==> level == info.stencil.reference + 1,
        info.stencil.op != 1 ==> level == info.stencil.reference,
{
}

/// The commands of one event of a pass.
pub open spec fn commands_of(
    infos: Seq<InfoModel>,
    on: bool,
    width: u32,
    height: u32,
    k: int,
) -> Seq<PassCommand> {
    let before = pass::pass_of(infos.take(k), on, width, height);
    before.1.event_part(infos[k], k as usize, on, width, height).0
}

proof fn lemma_pass_is_its_events(
    infos: Seq<InfoModel>,
    on: bool,
    width: u32,
    height: u32,
    k: int,
)
    requires
        0 <= k < infos.len(),
    ensures
        ({
            let all = pass::pass_of(infos, on, width, height).0;
            let from = pass::pass_of(infos.take(k), on, width, height).0.len() as int;
            let own = commands_of(infos, on, width, height, k);
            &&& from + own.len() <= all.len()
            &&& forall|i: int| 0 <= i < own.len() ==> all[from + i] == #[trigger] own[i]
        }),
    decreases infos.len(),
{
    let rest = infos.drop_last();
    if k < rest.len() {
        lemma_pass_is_its_events(rest, on, width, height, k);
        assert(rest.take(k) =~= infos.take(k));
        let all = pass::pass_of(infos, on, width, height).0;
        let fewer = pass::pass_of(rest, on, width, height).0;
        assert(forall|i: int| 0 <= i < fewer.len() ==> all[i] == #[trigger] fewer[i]);
        let from = pass::pass_of(infos.take(k), on, width, height).0.len() as int;
        let own = commands_of(infos, on, width, height, k);
        assert(own == commands_of(rest, on, width, height, k));
        assert forall|i: int| 0 <= i < own.len() implies all[from + i] == #[trigger] own[i] by {
            assert(all[from + i] == fewer[from + i]);
        }
    } else {
        assert(infos.take(k) =~= rest);
    }
}

/// Whether a command is among some.
pub open spec fn among(commands: Seq<PassCommand>, c: PassCommand) -> bool {
    exists|i: int| 0 <= i < commands.len() && #[trigger] commands[i] == c
}

/// Law: a pass draws every run of every event, with the run's own start, count and
/// texture: indices from the event's base vertex, instances, and glyphs at the
/// level that texts of the event are drawn at.
pub proof fn lemma_pass_draws_every_run(
    infos: Vec<EventInfo>,
    on: bool,
    width: u32,
    height: u32,
    r: Vec<PassCommand>,
    k: int,
    q: int,
)
    requires
        forall|i: int|
            0 <= i < infos@.len() ==> (#[trigger] infos@[i]).stencil.reference < u32::MAX,
        call_ensures(plan_pass, (&infos, on, width, height), r),
        0 <= k < infos@.len(),
    ensures
        infos@[k].shape is Some && 0 <= q < infos@[k].shape->0.segments@.len() ==> {
            let s = infos@[k].shape->0.segments@[q];
            among(
                r@,
                PassCommand::DrawIndexed {
                    event: k as usize,
                    start: s.start,
                    count: s.count,
                    base_vertex: infos@[k].shape->0.base_vertex,
                    bind_group: s.bind_group,
                },
            )
        },
        infos@[k].shape is Some && 0 <= q < infos@[k].shape->0.instances@.len() ==> {
            let s = infos@[k].shape->0.instances@[q];
            among(
                r@,
                PassCommand::DrawInstances {
                    event: k as usize,
                    start: s.start,
                    count: s.count,
                    bind_group: s.bind_group,
                },
            )
        },
        0 <= q < infos@[k].text@.len() ==> {
            let s = infos@[k].text@[q];
            let level = if infos@[k].stencil.op == 1 {
                infos@[k].stencil.reference + 1
            } else {
                infos@[k].stencil.reference as int
            };
            among(
                r@,
                PassCommand::DrawText {
                    event: k as usize,
                    start: s.start,
                    count: s.count,
                    bind_group: s.bind_group,
                    reference: if on {
                        Some(level as u32)
                    } else {
                        None
                    },
                },
            )
        },
{
    let models = pass::info_models(infos@);
    let info = models[k];
    let event = k as usize;
    lemma_pass_is_its_events(models, on, width, height, k);
    let before = pass::pass_of(models.take(k), on, width, height);
    let from = before.0.len() as int;
    let own = commands_of(models, on, width, height, k);
    if infos@[k].shape is Some && 0 <= q < infos@[k].shape->0.segments@.len() {
        let i = lemma_indices_drawn(before.1, info, event, on, width, height, q);
        assert(r@[from + i] == own[i]);
    }
    if infos@[k].shape is Some && 0 <= q < infos@[k].shape->0.instances@.len() {
        let i = lemma_instances_drawn(before.1, info, event, on, width, height, q);
        assert(r@[from + i] == own[i]);
    }
    if 0 <= q < infos@[k].text@.len() {
        let i = lemma_texts_drawn(before.1, info, event, on, width, height, q);
        assert(r@[from + i] == own[i]);
    }
}

proof fn lemma_indices_drawn(
    before: PassModel,
    info: InfoModel,
    event: usize,
    on: bool,
    width: u32,
    height: u32,
    q: int,
) -> (at: int)
    requires
        info.shape is Some,
        0 <= q < info.shape->0.segments.len(),
    ensures
        0 <= at < before.event_part(info, event, on, width, height).0.len(),
        before.event_part(info, event, on, width, height).0[at] == pass::index_draws(
            event,
            info.shape->0.base_vertex,
            info.shape->0.segments,
        )[q],
{
    let a = before.scissor_part(info, width, height);
    let b = a.1.shape_part(info, event, on);
    let c = b.1.text_part(info, event, on);
    let own = before.event_part(info, event, on, width, height).0;
    assert(own == a.0 + b.0 + c.0);
    let head: int = (if a.1.must_bind(info, on) {
        1int
    } else {
        0int
    }) + (if on {
        1int
    } else {
        0int
    });
    let draws = pass::index_draws(event, info.shape->0.base_vertex, info.shape->0.segments);
    assert(b.0[head + q] == draws[q]);
    assert(own[a.0.len() + head + q] == b.0[head + q]);
    a.0.len() + head + q
}

proof fn lemma_instances_drawn(
    before: PassModel,
    info: InfoModel,
    event: usize,
    on: bool,
    width: u32,
    height: u32,
    q: int,
) -> (at: int)
    requires
        info.shape is Some,
        0 <= q < info.shape->0.instances.len(),
    ensures
        0 <= at < before.event_part(info, event, on, width, height).0.len(),
        before.event_part(info, event, on, width, height).0[at] == pass::instance_draws(
            event,
            info.shape->0.instances,
        )[q],
{
    let a = before.scissor_part(info, width, height);
    let b = a.1.shape_part(info, event, on);
    let c = b.1.text_part(info, event, on);
    let own = before.event_part(info, event, on, width, height).0;
    assert(own == a.0 + b.0 + c.0);
    let draws = pass::instance_draws(event, info.shape->0.instances);
    let head = b.0.len() - draws.len();
    assert(b.0[head + q] == draws[q]);
    assert(own[a.0.len() + head + q] == b.0[head + q]);
    a.0.len() + head + q
}

proof fn lemma_texts_drawn(
    before: PassModel,
    info: InfoModel,
    event: usize,
    on: bool,
    width: u32,
    height: u32,
    q: int,
) -> (at: int)
    requires
        0 <= q < info.text.len(),
    ensures
        0 <= at < before.event_part(info, event, on, width, height).0.len(),
        before.event_part(info, event, on, width, height).0[at] == pass::text_draws(
            event,
            info.text,
            if on {
                Some(info.text_reference() as u32)
            } else {
                None
            },
        )[q],
{
    let a = before.scissor_part(info, width, height);
    let b = a.1.shape_part(info, event, on);
    let c = b.1.text_part(info, event, on);
    let own = before.event_part(info, event, on, width, height).0;
    assert(own == a.0 + b.0 + c.0);
    let draws = pass::text_draws(
        event,
        info.text,
        if on {
            Some(info.text_reference() as u32)
        } else {
            None
        },
    );
    let head = c.0.len() - draws.len();
    assert(c.0[head + q] == draws[q]);
    assert(own[a.0.len() + b.0.len() + head + q] == c.0[head + q]);
    a.0.len() + b.0.len() + head + q
}

/// Law: whatever pipeline is bound for an event's shapes is that of the event: of
/// its material if it has one, plain or with distance fields as its shapes are, and
/// with the event's use of the stencil where there is a stencil buffer. Whatever
/// reference is set is the event's own, and instances are bound with its use.
pub proof fn lemma_bound_pipeline_is_of_its_event(
    before: PassModel,
    info: InfoModel,
    event: usize,
    on: bool,
    width: u32,
    height: u32,
    i: int,
)
    requires
        info.stencil.op <= 4,
        0 <= i < before.event_part(info, event, on, width, height).0.len(),
    ensures
        before.event_part(info, event, on, width, height).0[i] matches PassCommand::BindShapes {
            event: e,
            pipeline,
        } ==> {
            &&& e == event
            &&& info.shape is Some
            &&& info.custom_material matches Some(m) ==> pipeline == (ShapePipeline::Custom {
                material: m,
                op: if on {
                    Some(info.stencil.op)
                } else {
                    None
                },
            })
            &&& info.custom_material is None && on ==> pipeline == (ShapePipeline::Stencil {
                geometry: info.shape->0.geometry,
                op: info.stencil.op,
            })
            &&& info.custom_material is None && !on ==> pipeline == (ShapePipeline::Plain {
                geometry: info.shape->0.geometry,
            })
        },
        before.event_part(info, event, on, width, height).0[i] matches PassCommand::SetReference(n)
            ==> on && n == info.stencil.reference,
        before.event_part(info, event, on, width, height).0[i] matches PassCommand::BindInstances {
            op,
        } ==> op == info.stencil.op && info.shape is Some && info.shape->0.instances.len() > 0,
        before.event_part(info, event, on, width, height).0[i] matches PassCommand::SetTextMode(
            mode,
        ) ==> info.text.len() > 0 && (mode == TextStencilMode::Off <==> !on) && (mode
            == TextStencilMode::Test <==> on && (info.stencil.area || info.stencil.op == 1
            || info.stencil.op == 2)),
{
    let a = before.scissor_part(info, width, height);
    let b = a.1.shape_part(info, event, on);
    let c = b.1.text_part(info, event, on);
    let all = before.event_part(info, event, on, width, height).0;
    assert(all == a.0 + b.0 + c.0);
    if i < a.0.len() {
        assert(all[i] == a.0[i]);
        assert(a.0[i] is SetScissor);
    } else if i < a.0.len() + b.0.len() {
        let j = i - a.0.len();
        assert(all[i] == b.0[j]);
    } else {
        let j = i - a.0.len() - b.0.len();
        assert(all[i] == c.0[j]);
    }
}

/// Law: opening a box cuts what was open before to it; closing goes back to what
/// was open before, at last to the whole target.
pub proof fn lemma_boxes_open_and_close(
    before: PassModel,
    info: InfoModel,
    event: usize,
    on: bool,
    width: u32,
    height: u32,
    px: int,
    py: int,
)
    requires
        before.scissors.len() > 0,
        before.scissors.last().fits(),
    ensures
        ({
            let part = before.event_part(info, event, on, width, height);
            let open = before.scissors.last();
            &&& info.scissor_push is Some && !info.scissor_pop ==> {
                &&& part.1.scissors.len() == before.scissors.len() + 1
                &&& part.1.scissors.drop_last() == before.scissors
                &&& part.0[0] == PassCommand::SetScissor(part.1.scissors.last())
                &&& part.1.scissors.last().has(px, py) <==> open.has(px, py)
                    && info.scissor_push->0.left <= px < info.scissor_push->0.right
                    && info.scissor_push->0.top <= py < info.scissor_push->0.bottom
            }
            &&& info.scissor_push is None && info.scissor_pop ==> {
                &&& part.1.scissors == before.scissors.drop_last()
                &&& before.scissors.len() > 1 ==> part.0[0] == PassCommand::SetScissor(
                    before.scissors[before.scissors.len() - 2],
                )
                &&& before.scissors.len() == 1 ==> part.0[0] == PassCommand::SetScissor(
                    PixelRect { x: 0, y: 0, w: width, h: height },
                )
            }
            &&& info.scissor_push is None && !info.scissor_pop ==> part.1.scissors
                == before.scissors
        }),
        PassModel::start(width, height).scissors == seq![
            PixelRect { x: 0, y: 0, w: width, h: height },
        ],
{
    let a = before.scissor_part(info, width, height);
    let b = a.1.shape_part(info, event, on);
    let c = b.1.text_part(info, event, on);
    let part = before.event_part(info, event, on, width, height);
    assert(part.0 == a.0 + b.0 + c.0);
    assert(part.1.scissors == a.1.scissors);
    if a.0.len() > 0 {
        assert(part.0[0] == a.0[0]);
    }
    if info.scissor_push is Some && !info.scissor_pop {
        assert(part.1.scissors.drop_last() =~= before.scissors);
    }
}

/// Law: what is said of an event's info is said of its parts, each of its own.
pub proof fn lemma_info_is_its_parts(info: EventInfo)
    ensures
        info@.shape is Some <==> info.shape is Some,
        info.shape is Some ==> info@.shape->0 == info.shape->0@,
        info@.text == info.text@,
        info@.stencil == info.stencil,
        info@.scissor_push == info.scissor_push,
        info@.scissor_pop == info.scissor_pop,
        info@.custom_material == info.custom_material,
        info@.dynamic_offsets == info.dynamic_offsets@,
{
}

} // verus!
