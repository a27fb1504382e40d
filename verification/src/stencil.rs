//! How each event of a frame uses the stencil buffer.

use vstd::prelude::*;
use crate::area;
use crate::area::GeomModel;
use crate::batch::{BatchModel, DrawBatch};
use crate::flatten;
use crate::flatten::{BatchHint, DrawEvent, EventModel};
use crate::geometry::Rect;

verus! {

/// How one event uses the stencil buffer. `op` 0 leaves it alone, 1 draws and
/// raises where it equals `reference`, 2 draws where it equals `reference`, 3
/// lowers and 4 raises there without drawing.
#[derive(Clone, Copy, Debug, PartialEq, Eq, Structural)]
pub struct StencilUse {
    pub op: u32,
    pub reference: u32,
    /// Whether the event is a step of an area mask.
    pub area: bool,
}

/// The stencil levels in the course of a frame.
pub struct LevelModel {
    /// How many clipping batches are open.
    pub clip_depth: int,
    /// How many area masks are open.
    pub area_depth: int,
    /// The levels that the open clipping batches have raised to.
    pub refs: Seq<u32>,
}

/// One less, but not below 0.
pub open spec fn less_one(n: int) -> int {
    if n > 0 {
        n - 1
    } else {
        n
    }
}

impl BatchModel {
    /// The level that the batch's own shapes and texts are drawn at, from the
    /// level its ancestors leave.
    pub open spec fn content_level(self, level: int) -> int {
        level + (if self.has_area() {
            1int
        } else {
            0int
        })
    }

    /// How the batch uses the stencil when drawn at `content`.
    pub open spec fn stencil_use(self, auto_scissor: Option<Rect>, content: int) -> StencilUse {
        if self.pushes(auto_scissor) {
            StencilUse { op: 1, reference: content as u32, area: false }
        } else if content > 0 && self.inherit.clipped && self.has_content() {
            StencilUse { op: 2, reference: content as u32, area: false }
        } else {
            StencilUse { op: 0, reference: 0, area: false }
        }
    }
}

impl LevelModel {
    /// At the start of a frame.
    pub open spec fn start() -> LevelModel {
        LevelModel { clip_depth: 0, area_depth: 0, refs: seq![] }
    }

    /// The level that the open clips and masks leave.
    pub open spec fn level(self) -> int {
        self.clip_depth + self.area_depth
    }

    /// How the next event uses the stencil.
    pub open spec fn event_use(self, e: EventModel) -> StencilUse {
        match e {
            EventModel::Batch { batch, auto_scissor } => batch.stencil_use(
                auto_scissor,
                batch.content_level(self.level()),
            ),
            EventModel::StencilPop => StencilUse {
                op: 3,
                reference: if self.refs.len() > 0 {
                    self.refs.last()
                } else {
                    0
                },
                area: false,
            },
            EventModel::AreaOp { op, .. } => StencilUse {
                op: if op.cover {
                    4
                } else {
                    3
                },
                reference: op.at as u32,
                area: true,
            },
            _ => StencilUse { op: 0, reference: 0, area: false },
        }
    }

    /// The levels after the next event.
    pub open spec fn after(self, e: EventModel) -> LevelModel {
        match e {
            EventModel::Batch { batch, auto_scissor } => LevelModel {
                clip_depth: self.clip_depth + (if batch.pushes(auto_scissor) {
                    1int
                } else {
                    0int
                }),
                area_depth: self.area_depth + (if batch.has_area() {
                    1int
                } else {
                    0int
                }),
                refs: if batch.pushes(auto_scissor) {
                    self.refs.push((batch.content_level(self.level()) + 1) as u32)
                } else {
                    self.refs
                },
            },
            EventModel::StencilPop => LevelModel {
                clip_depth: less_one(self.clip_depth),
                refs: if self.refs.len() > 0 {
                    self.refs.drop_last()
                } else {
                    self.refs
                },
                ..self
            },
            EventModel::AreaOp { closes, .. } => LevelModel {
                area_depth: if closes {
                    less_one(self.area_depth)
                } else {
                    self.area_depth
                },
                ..self
            },
            _ => self,
        }
    }
}

/// The levels after some events.
pub open spec fn levels_after(events: Seq<EventModel>, start: LevelModel) -> LevelModel
    decreases events.len(),
{
    if events.len() == 0 {
        start
    } else {
        levels_after(events.drop_last(), start).after(events.last())
    }
}

/// How some events use the stencil.
pub open spec fn uses_of(events: Seq<EventModel>, start: LevelModel) -> Seq<StencilUse>
    decreases events.len(),
{
    if events.len() == 0 {
        seq![]
    } else {
        uses_of(events.drop_last(), start).push(
            levels_after(events.drop_last(), start).event_use(events.last()),
        )
    }
}

/// Whether any event needs a stencil buffer at all.
pub open spec fn needs_stencil(events: Seq<EventModel>) -> bool {
    exists|i: int|
        0 <= i < events.len() && (#[trigger] events[i] is StencilPop || events[i] is AreaOp)
}

/// Whether any event draws something.
pub open spec fn draws_something(events: Seq<EventModel>) -> bool {
    exists|i: int|
        0 <= i < events.len() && (#[trigger] events[i] matches EventModel::Batch { batch, .. }
            && batch.has_content())
}

/// Whether a frame of these events needs a stencil buffer.
pub fn uses_stencil(events: &Vec<DrawEvent>) -> (r: bool)
    ensures
        r == needs_stencil(flatten::event_models(events@)),
{
    let ghost models = flatten::event_models(events@);
    let mut i: usize = 0;
    while i < events.len()
        invariant
            i <= events.len(),
            models == flatten::event_models(events@),
            forall|j: int|
                0 <= j < i ==> !(#[trigger] models[j] is StencilPop || models[j] is AreaOp),
        decreases events.len() - i,
    {
        assert(models[i as int] == events@[i as int]@);
        match &events[i] {
            DrawEvent::StencilPop => {
                return true;
            },
            DrawEvent::AreaOp { .. } => {
                return true;
            },
            _ => {},
        }
        i = i + 1;
    }
    false
}

/// Whether there is anything to do in a frame: a colour to clear to, or some
/// event that draws.
pub fn has_content(events: &Vec<DrawEvent>, clears: bool) -> (r: bool)
    ensures
        r == (clears || draws_something(flatten::event_models(events@))),
{
    if clears {
        return true;
    }
    let ghost models = flatten::event_models(events@);
    let mut i: usize = 0;
    while i < events.len()
        invariant
            i <= events.len(),
            models == flatten::event_models(events@),
            forall|j: int|
                0 <= j < i ==> !(#[trigger] models[j] matches EventModel::Batch { batch, .. }
                    && batch.has_content()),
        decreases events.len() - i,
    {
        assert(models[i as int] == events@[i as int]@);
        if let DrawEvent::Batch { batch, .. } = &events[i] {
            if batch.vertices.len() > 0 || batch.instances.len() > 0 || batch.texts.len() > 0 {
                return true;
            }
        }
        i = i + 1;
    }
    false
}

fn batch_use(batch: &DrawBatch, use_scissor: bool, content_level: u32) -> (r: StencilUse)
    requires
        content_level < u32::MAX,
    ensures
        forall|auto_scissor: Option<Rect>|
            use_scissor == batch@.uses_scissor(auto_scissor) ==> r
                == #[trigger] batch@.stencil_use(auto_scissor, content_level as int),
{
    let has_geometry = batch.vertices.len() > 0 || batch.instances.len() > 0;
    let has_draw = has_geometry || batch.texts.len() > 0;
    if !use_scissor && batch.clips_children && has_geometry {
        StencilUse { op: 1, reference: content_level, area: false }
    } else if content_level > 0 && batch.inherit.clipped && has_draw {
        StencilUse { op: 2, reference: content_level, area: false }
    } else {
        StencilUse { op: 0, reference: 0, area: false }
    }
}

/// Finds how each event uses the stencil.
///
/// Clipping batches and area masks are counted apart: a batch is drawn at the
/// number of open clips and masks, its own mask included.
pub fn plan_stencil(events: &Vec<DrawEvent>) -> (r: Vec<StencilUse>)
    requires
        2 * events.len() < u32::MAX,
    ensures
        r@ == uses_of(flatten::event_models(events@), LevelModel::start()),
{
    let ghost models = flatten::event_models(events@);
    let mut uses: Vec<StencilUse> = Vec::new();
    let mut refs: Vec<u32> = Vec::new();
    let mut clip_depth: u32 = 0;
    let mut area_depth: u32 = 0;
    let mut i: usize = 0;
    let ghost mut levels = LevelModel::start();
    assert(models.take(0) =~= seq![]);
    while i < events.len()
        invariant
            i <= events.len(),
            2 * events.len() < u32::MAX,
            models == flatten::event_models(events@),
            levels == levels_after(models.take(i as int), LevelModel::start()),
            levels == (LevelModel {
                clip_depth: clip_depth as int,
                area_depth: area_depth as int,
                refs: refs@,
            }),
            clip_depth <= i,
            area_depth <= i,
            uses@ == uses_of(models.take(i as int), LevelModel::start()),
        decreases events.len() - i,
    {
        let ghost e = models[i as int];
        assert(e == events@[i as int]@);
        assert(models.take(i + 1).drop_last() =~= models.take(i as int));
        assert(models.take(i + 1).last() == e);
        let next = match &events[i] {
            DrawEvent::Batch { batch, auto_scissor } => {
                let has_own_area = match batch.effective_area() {
                    Some(a) => !a.is_empty(),
                    None => false,
                };
                let use_scissor = batch.uses_scissor_path(has_own_area, *auto_scissor);
                let content_level: u32 = if has_own_area {
                    clip_depth + area_depth + 1
                } else {
                    clip_depth + area_depth
                };
                if has_own_area {
                    area_depth = area_depth + 1;
                }
                let stencil_use = batch_use(batch, use_scissor, content_level);
                assert(stencil_use == batch@.stencil_use(*auto_scissor, content_level as int));
                if stencil_use.op == 1 {
                    refs.push(content_level + 1);
                    clip_depth = clip_depth + 1;
                }
                stencil_use
            },
            DrawEvent::StencilPop => {
                let reference: u32 = match refs.pop() {
                    Some(r) => r,
                    None => 0,
                };
                if clip_depth > 0 {
                    clip_depth = clip_depth - 1;
                }
                StencilUse { op: 3, reference, area: false }
            },
            DrawEvent::AreaOp { op, closes, .. } => {
                if *closes && area_depth > 0 {
                    area_depth = area_depth - 1;
                }
                StencilUse { op: op.stencil_pipeline_op(), reference: op.stencil_ref(), area: true }
            },
            DrawEvent::ScissorPush(_) => StencilUse { op: 0, reference: 0, area: false },
            DrawEvent::ScissorPop => StencilUse { op: 0, reference: 0, area: false },
        };
        assert(next == levels.event_use(e));
        proof {
            levels = levels.after(e);
        }
        assert(levels.refs =~= refs@);
        uses.push(next);
        i = i + 1;
    }
    assert(models.take(i as int) =~= models);
    uses
}

} // verus!
