//! A renderer: its attachments and buffers, and the plan of a frame.

use crate::batch::TextureSegment;
use crate::buffers;
use crate::buffers::{grown_capacity, LEAST_EDGE_BYTES, LEAST_TRANSFORM_BYTES};
use crate::flatten;
use crate::flatten::{DrawEvent, EventModel};
use crate::frame;
use crate::frame_laws;
use crate::frame::{build_frame, FrameGeometry, ShapeInfo};
use crate::pass;
use crate::pass::{plan_pass, EventInfo, InfoModel, PassCommand, PixelBox};
use crate::stencil;
use crate::stencil::{has_content, plan_stencil, uses_stencil, LevelModel, StencilUse};
use crate::vertex::F32Bits;
use vstd::prelude::*;

verus! {

// ---------------------------------------------------------------------------
// Attachments and buffers
// ---------------------------------------------------------------------------

/// A texture that is drawn to beside the target.
#[derive(Clone, Copy, Debug, PartialEq, Eq, Structural)]
pub struct Attachment {
    pub width: u32,
    pub height: u32,
    pub sample_count: u32,
}

/// What a frame needs of an attachment.
#[derive(Clone, Copy, Debug, PartialEq, Eq, Structural)]
pub enum AttachmentPlan {
    /// None.
    Absent,
    /// The one there is.
    Reuse,
    /// A new one.
    Create(Attachment),
}

/// The buffers of a renderer.
#[derive(Clone, Copy, Debug, PartialEq, Eq, Structural)]
pub enum BufferKind {
    Vertices,
    Indices,
    Instances,
    Edges,
    Transforms,
}

impl BufferKind {
    /// The least size of a buffer made for the first time.
    pub open spec fn least(self) -> u64 {
        match self {
            BufferKind::Edges => LEAST_EDGE_BYTES,
            BufferKind::Transforms => LEAST_TRANSFORM_BYTES,
            _ => 0,
        }
    }

    /// Whether the buffer is part of the storage bind group.
    pub open spec fn stored(self) -> bool {
        self == BufferKind::Edges || self == BufferKind::Transforms
    }
}

/// What a renderer knows of its target, its attachments and its buffers.
#[derive(Clone, Copy, Debug, PartialEq, Eq, Structural)]
pub struct Renderer {
    pub logical_width: u32,
    pub logical_height: u32,
    pub physical_width: u32,
    pub physical_height: u32,
    pub scale: F32Bits,
    pub dpi_scale: F32Bits,
    pub sample_count: u32,
    pub alpha_to_coverage: bool,
    pub ssaa: bool,
    pub msaa: Option<Attachment>,
    pub depth_stencil: Option<Attachment>,
    pub vertex_cap: u64,
    pub index_cap: u64,
    pub instance_cap: u64,
    pub edge_cap: u64,
    pub transform_cap: u64,
    /// Whether the storage bind group holds the buffers there are.
    pub storage_bound: bool,
}

impl Renderer {
    /// The attachment that fits the target.
    pub open spec fn wanted(self) -> Attachment {
        Attachment {
            width: self.physical_width,
            height: self.physical_height,
            sample_count: self.sample_count,
        }
    }

    /// The bytes of a buffer.
    pub open spec fn capacity(self, kind: BufferKind) -> u64 {
        match kind {
            BufferKind::Vertices => self.vertex_cap,
            BufferKind::Indices => self.index_cap,
            BufferKind::Instances => self.instance_cap,
            BufferKind::Edges => self.edge_cap,
            BufferKind::Transforms => self.transform_cap,
        }
    }

    /// The renderer with a buffer of another size. A new buffer of the storage
    /// bind group makes that group out of date.
    pub open spec fn with_capacity(self, kind: BufferKind, capacity: u64) -> Renderer {
        match kind {
            BufferKind::Vertices => Renderer { vertex_cap: capacity, ..self },
            BufferKind::Indices => Renderer { index_cap: capacity, ..self },
            BufferKind::Instances => Renderer { instance_cap: capacity, ..self },
            BufferKind::Edges => Renderer { edge_cap: capacity, storage_bound: false, ..self },
            BufferKind::Transforms => Renderer {
                transform_cap: capacity,
                storage_bound: false,
                ..self
            },
        }
    }

    /// A renderer without attachments and buffers.
    pub fn new(
        logical_width: u32,
        logical_height: u32,
        physical_width: u32,
        physical_height: u32,
        scale: F32Bits,
        sample_count: u32,
        alpha_to_coverage: bool,
        ssaa: bool,
        dpi_scale: F32Bits,
    ) -> (r: Renderer)
        ensures
            r == (Renderer {
                logical_width,
                logical_height,
                physical_width,
                physical_height,
                scale,
                dpi_scale,
                sample_count,
                alpha_to_coverage,
                ssaa,
                msaa: None,
                depth_stencil: None,
                vertex_cap: 0,
                index_cap: 0,
                instance_cap: 0,
                edge_cap: 0,
                transform_cap: 0,
                storage_bound: false,
            }),
    {
        Renderer {
            logical_width,
            logical_height,
            physical_width,
            physical_height,
            scale,
            dpi_scale,
            sample_count,
            alpha_to_coverage,
            ssaa,
            msaa: None,
            depth_stencil: None,
            vertex_cap: 0,
            index_cap: 0,
            instance_cap: 0,
            edge_cap: 0,
            transform_cap: 0,
            storage_bound: false,
        }
    }

    /// Changes how edges are smoothed, and drops both attachments.
    pub fn update_aa(&mut self, sample_count: u32, alpha_to_coverage: bool, ssaa: bool)
        ensures
            *final(self) == (Renderer {
                sample_count,
                alpha_to_coverage,
                ssaa,
                msaa: None,
                depth_stencil: None,
                ..*old(self)
            }),
    {
        self.sample_count = sample_count;
        self.alpha_to_coverage = alpha_to_coverage;
        self.ssaa = ssaa;
        self.msaa = None;
        self.depth_stencil = None;
    }

    /// Changes the size of the target, and drops both attachments.
    pub fn resize(
        &mut self,
        logical_width: u32,
        logical_height: u32,
        physical_width: u32,
        physical_height: u32,
        scale: F32Bits,
        dpi_scale: F32Bits,
    )
        ensures
            *final(self) == (Renderer {
                logical_width,
                logical_height,
                physical_width,
                physical_height,
                scale,
                dpi_scale,
                msaa: None,
                depth_stencil: None,
                ..*old(self)
            }),
    {
        self.logical_width = logical_width;
        self.logical_height = logical_height;
        self.physical_width = physical_width;
        self.physical_height = physical_height;
        self.scale = scale;
        self.dpi_scale = dpi_scale;
        self.msaa = None;
        self.depth_stencil = None;
    }

    fn fitting(&self) -> (r: Attachment)
        ensures
            r == self.wanted(),
    {
        Attachment {
            width: self.physical_width,
            height: self.physical_height,
            sample_count: self.sample_count,
        }
    }

    /// The attachment with several samples per pixel, which is resolved to the
    /// target. There is none for one sample.
    pub fn msaa_view(&mut self) -> (r: AttachmentPlan)
        ensures
            old(self).sample_count <= 1 ==> r == AttachmentPlan::Absent && *final(self) == *old(
                self,
            ),
            old(self).sample_count > 1 && old(self).msaa == Some(old(self).wanted()) ==> r
                == AttachmentPlan::Reuse && *final(self) == *old(self),
            old(self).sample_count > 1 && old(self).msaa != Some(old(self).wanted()) ==> r
                == AttachmentPlan::Create(old(self).wanted()) && *final(self) == (Renderer {
                msaa: Some(old(self).wanted()),
                ..*old(self)
            }),
    {
        if self.sample_count <= 1 {
            return AttachmentPlan::Absent;
        }
        let wanted = self.fitting();
        let fits = match self.msaa {
            Some(a) => a == wanted,
            None => false,
        };
        if fits {
            AttachmentPlan::Reuse
        } else {
            self.msaa = Some(wanted);
            AttachmentPlan::Create(wanted)
        }
    }

    /// The stencil attachment.
    pub fn ds_view(&mut self) -> (r: AttachmentPlan)
        ensures
            old(self).depth_stencil == Some(old(self).wanted()) ==> r == AttachmentPlan::Reuse
                && *final(self) == *old(self),
            old(self).depth_stencil != Some(old(self).wanted()) ==> r == AttachmentPlan::Create(
                old(self).wanted(),
            ) && *final(self) == (Renderer {
                depth_stencil: Some(old(self).wanted()),
                ..*old(self)
            }),
    {
        let wanted = self.fitting();
        let fits = match self.depth_stencil {
            Some(a) => a == wanted,
            None => false,
        };
        if fits {
            AttachmentPlan::Reuse
        } else {
            self.depth_stencil = Some(wanted);
            AttachmentPlan::Create(wanted)
        }
    }

    /// Makes a buffer large enough for `size` bytes: with how many it is made
    /// anew, if it has to be.
    pub fn ensure_buffer(&mut self, kind: BufferKind, size: u64) -> (r: Option<u64>)
        requires
            size <= 0x8000_0000_0000_0000,
            old(self).capacity(kind) < 0x8000_0000_0000_0000,
        ensures
            r is None <==> size == 0 || old(self).capacity(kind) >= size,
            r is None ==> *final(self) == *old(self),
            r matches Some(new) ==> buffers::grows_to(
                old(self).capacity(kind) as nat,
                size as nat,
                kind.least() as nat,
                new as nat,
            ) && *final(self) == old(self).with_capacity(kind, new),
    {
        let (capacity, least): (u64, u64) = match kind {
            BufferKind::Vertices => (self.vertex_cap, 0),
            BufferKind::Indices => (self.index_cap, 0),
            BufferKind::Instances => (self.instance_cap, 0),
            BufferKind::Edges => (self.edge_cap, LEAST_EDGE_BYTES),
            BufferKind::Transforms => (self.transform_cap, LEAST_TRANSFORM_BYTES),
        };
        let new: u64 = match grown_capacity(capacity, size, least) {
            None => return None,
            Some(new) => new,
        };
        match kind {
            BufferKind::Vertices => self.vertex_cap = new,
            BufferKind::Indices => self.index_cap = new,
            BufferKind::Instances => self.instance_cap = new,
            BufferKind::Edges => {
                self.edge_cap = new;
                self.storage_bound = false;
            },
            BufferKind::Transforms => {
                self.transform_cap = new;
                self.storage_bound = false;
            },
        }
        Some(new)
    }

    /// Whether the storage bind group has to be made anew; from then on it
    /// holds the buffers there are.
    pub fn bind_storage(&mut self) -> (r: bool)
        ensures
            r == !old(self).storage_bound,
            *final(self) == (Renderer { storage_bound: true, ..*old(self) }),
    {
        let r = !self.storage_bound;
        self.storage_bound = true;
        r
    }
}

/// Law: attachments that were just made fit, and no longer do once the size or
/// the sample count is another.
pub proof fn lemma_attachment_fits(before: Renderer, later: Renderer)
    requires
        later.msaa == Some(before.wanted()),
        later.depth_stencil == Some(before.wanted()),
    ensures
        later.msaa == Some(later.wanted()) <==> {
            &&& later.physical_width == before.physical_width
            &&& later.physical_height == before.physical_height
            &&& later.sample_count == before.sample_count
        },
        later.depth_stencil == Some(later.wanted()) <==> later.msaa == Some(later.wanted()),
{
}

// ---------------------------------------------------------------------------
// The boxes of subtrees
// ---------------------------------------------------------------------------

/// Whether `r` is the union of two boxes, or the one that there is.
pub open spec fn is_joined<R, F: Fn(R, R) -> R>(
    a: Option<R>,
    b: Option<R>,
    join: F,
    r: Option<R>,
) -> bool {
    match (a, b) {
        (_, None) => r == a,
        (None, Some(_)) => r == b,
        (Some(a), Some(b)) => r is Some && join.ensures((a, b), r->0),
    }
}

/// Whether `steps` are the unions of `own` and the first boxes of `children`,
/// one more with each step.
pub open spec fn are_unions<R, F: Fn(R, R) -> R>(
    own: Option<R>,
    children: Seq<Option<R>>,
    join: F,
    steps: Seq<Option<R>>,
) -> bool {
    &&& steps.len() == children.len() + 1
    &&& steps[0] == own
    &&& forall|i: int|
        0 <= i < children.len() ==> #[trigger] is_joined(steps[i], children[i], join, steps[i + 1])
}

/// The box of a batch and its children: the union of the box of its own shapes
/// and the boxes of its children, from left to right; none if there are none.
pub fn subtree_box<R: Copy, F: Fn(R, R) -> R>(
    own: Option<R>,
    children: &Vec<Option<R>>,
    join: &F,
) -> (r: Option<R>)
    requires
        forall|a: R, b: R| #[trigger] join.requires((a, b)),
    ensures
        exists|steps: Seq<Option<R>>| #[trigger]
            are_unions(own, children@, *join, steps) && r == steps.last(),
        r is None <==> own is None && forall|i: int|
            0 <= i < children@.len() ==> #[trigger] children@[i] is None,
{
    let mut r: Option<R> = own;
    let ghost mut steps: Seq<Option<R>> = seq![own];
    let mut i: usize = 0;
    while i < children.len()
        invariant
            i <= children.len(),
            forall|a: R, b: R| #[trigger] join.requires((a, b)),
            steps.len() == i + 1,
            steps[0] == own,
            forall|k: int|
                0 <= k < i ==> #[trigger] is_joined(steps[k], children@[k], *join, steps[k + 1]),
            r == steps.last(),
            r is None <==> own is None && forall|k: int|
                0 <= k < i ==> #[trigger] children@[k] is None,
        decreases children.len() - i,
    {
        let ghost before = steps;
        if let Some(c) = children[i] {
            r = match r {
                Some(b) => Some(join(b, c)),
                None => Some(c),
            };
        }
        proof {
            steps = steps.push(r);
            assert(is_joined(steps[i as int], children@[i as int], *join, steps[i + 1]));
            assert forall|k: int| 0 <= k < i + 1 implies #[trigger] is_joined(
                steps[k],
                children@[k],
                *join,
                steps[k + 1],
            ) by {
                if k < i {
                    assert(is_joined(before[k], children@[k], *join, before[k + 1]));
                }
            }
        }
        i = i + 1;
    }
    assert(are_unions(own, children@, *join, steps));
    r
}

// ---------------------------------------------------------------------------
// The plan of a frame
// ---------------------------------------------------------------------------

/// What a pass knows of one event.
pub open spec fn info_of(
    event: EventModel,
    stencil: StencilUse,
    shape: Option<frame::ShapeModel>,
    pixels: Option<PixelBox>,
    text: Seq<TextureSegment>,
) -> InfoModel {
    InfoModel {
        shape,
        text,
        stencil,
        scissor_push: if event is ScissorPush {
            pixels
        } else {
            None
        },
        scissor_pop: event is ScissorPop,
        custom_material: match event {
            EventModel::Batch { batch, .. } => batch.custom_material,
            _ => None,
        },
        dynamic_offsets: match event {
            EventModel::Batch { batch, .. } => batch.dynamic_offsets,
            _ => seq![],
        },
    }
}

/// What a pass knows of all events.
pub open spec fn infos_of(
    events: Seq<EventModel>,
    uses: Seq<StencilUse>,
    shapes: Seq<Option<frame::ShapeModel>>,
    boxes: Seq<Option<PixelBox>>,
    texts: Seq<Seq<TextureSegment>>,
) -> Seq<InfoModel> {
    Seq::new(
        events.len(),
        |i: int| info_of(events[i], uses[i], shapes[i], boxes[i], texts[i]),
    )
}

/// What some lists of runs hold.
pub open spec fn text_models(texts: Seq<Vec<TextureSegment>>) -> Seq<Seq<TextureSegment>> {
    texts.map_values(|t: Vec<TextureSegment>| t@)
}

fn copy_runs(runs: &Vec<TextureSegment>) -> (r: Vec<TextureSegment>)
    ensures
        r@ == runs@,
{
    let mut r: Vec<TextureSegment> = Vec::new();
    let mut i: usize = 0;
    while i < runs.len()
        invariant
            i <= runs.len(),
            r@ == runs@.take(i as int),
        decreases runs.len() - i,
    {
        r.push(runs[i]);
        i = i + 1;
        assert(r@ =~= runs@.take(i as int));
    }
    assert(r@ =~= runs@);
    r
}

fn copy_offsets(offsets: &Vec<u32>) -> (r: Vec<u32>)
    ensures
        r@ == offsets@,
{
    let mut r: Vec<u32> = Vec::new();
    let mut i: usize = 0;
    while i < offsets.len()
        invariant
            i <= offsets.len(),
            r@ == offsets@.take(i as int),
        decreases offsets.len() - i,
    {
        r.push(offsets[i]);
        i = i + 1;
        assert(r@ =~= offsets@.take(i as int));
    }
    assert(r@ =~= offsets@);
    r
}

fn copy_shape(shape: &Option<ShapeInfo>) -> (r: Option<ShapeInfo>)
    ensures
        frame::shape_models(seq![r]) == frame::shape_models(seq![*shape]),
        r is Some == shape is Some,
        r is Some ==> r->0@ == shape->0@,
{
    let r = match shape {
        None => None,
        Some(s) => Some(
            ShapeInfo {
                base_vertex: s.base_vertex,
                segments: copy_runs(&s.segments),
                geometry: s.geometry,
                instances: copy_runs(&s.instances),
            },
        ),
    };
    assert(frame::shape_models(seq![r]) =~= frame::shape_models(seq![*shape]));
    r
}

/// Gathers what a pass knows of each event.
pub fn event_infos(
    events: &Vec<DrawEvent>,
    uses: &Vec<StencilUse>,
    shapes: &Vec<Option<ShapeInfo>>,
    boxes: &Vec<Option<PixelBox>>,
    texts: &Vec<Vec<TextureSegment>>,
) -> (r: Vec<EventInfo>)
    requires
        uses.len() == events.len(),
        shapes.len() == events.len(),
        boxes.len() == events.len(),
        texts.len() == events.len(),
    ensures
        pass::info_models(r@) == infos_of(
            flatten::event_models(events@),
            uses@,
            frame::shape_models(shapes@),
            boxes@,
            text_models(texts@),
        ),
{
    let ghost models = flatten::event_models(events@);
    let ghost all = infos_of(
        models,
        uses@,
        frame::shape_models(shapes@),
        boxes@,
        text_models(texts@),
    );
    let mut r: Vec<EventInfo> = Vec::new();
    let mut i: usize = 0;
    assert(pass::info_models(r@) =~= all.take(0));
    while i < events.len()
        invariant
            i <= events.len(),
            uses.len() == events.len(),
            shapes.len() == events.len(),
            boxes.len() == events.len(),
            texts.len() == events.len(),
            models == flatten::event_models(events@),
            all == infos_of(
                models,
                uses@,
                frame::shape_models(shapes@),
                boxes@,
                text_models(texts@),
            ),
            pass::info_models(r@) == all.take(i as int),
        decreases events.len() - i,
    {
        let shape = copy_shape(&shapes[i]);
        let text = copy_runs(&texts[i]);
        let stencil = uses[i];
        let (custom_material, dynamic_offsets) = match &events[i] {
            DrawEvent::Batch { batch, .. } => (
                batch.custom_material,
                copy_offsets(&batch.dynamic_offsets),
            ),
            _ => (None, Vec::new()),
        };
        let scissor_push = match &events[i] {
            DrawEvent::ScissorPush(_) => boxes[i],
            _ => None,
        };
        let scissor_pop = matches!(&events[i], DrawEvent::ScissorPop);
        let info = EventInfo {
            shape,
            text,
            stencil,
            scissor_push,
            scissor_pop,
            custom_material,
            dynamic_offsets,
        };
        let ghost before = r@;
        proof {
            assert(models[i as int] == events@[i as int]@);
            assert(frame::shape_models(shapes@)[i as int] == (match shapes@[i as int] {
                Some(s) => Some(s@),
                None => None,
            }));
            assert(text_models(texts@)[i as int] == texts@[i as int]@);
            assert(all[i as int] == info_of(
                models[i as int],
                uses@[i as int],
                frame::shape_models(shapes@)[i as int],
                boxes@[i as int],
                text_models(texts@)[i as int],
            ));
            assert(info@.dynamic_offsets =~= all[i as int].dynamic_offsets);
            assert(info@ == all[i as int]);
        }
        r.push(info);
        assert(pass::info_models(r@) =~= pass::info_models(before).push(info@));
        assert(all.take(i + 1) =~= all.take(i as int).push(all[i as int]));
        i = i + 1;
    }
    assert(all.take(i as int) =~= all);
    r
}

/// What is sent to the device for a frame.
pub struct FramePlan {
    /// The merged buffers.
    pub geometry: FrameGeometry,
    /// What the pass knows of each event.
    pub infos: Vec<EventInfo>,
    /// The commands of the pass.
    pub commands: Vec<PassCommand>,
    /// Whether the pass has a stencil attachment.
    pub uses_stencil: bool,
    /// Whether there is a pass at all.
    pub opens_pass: bool,
}

/// Whether an event draws shapes or glyphs.
pub open spec fn shows_something(info: InfoModel) -> bool {
    info.shape is Some || info.text.len() > 0
}

/// Whether some event draws shapes or glyphs.
pub open spec fn any_shows(infos: Seq<InfoModel>) -> bool {
    exists|i: int| 0 <= i < infos.len() && shows_something(#[trigger] infos[i])
}

fn any_info_shows(infos: &Vec<EventInfo>) -> (r: bool)
    ensures
        r == any_shows(pass::info_models(infos@)),
{
    let ghost models = pass::info_models(infos@);
    let mut i: usize = 0;
    while i < infos.len()
        invariant
            i <= infos.len(),
            models == pass::info_models(infos@),
            forall|k: int| 0 <= k < i ==> !shows_something(#[trigger] models[k]),
        decreases infos.len() - i,
    {
        assert(models[i as int] == infos@[i as int]@);
        if infos[i].shape.is_some() || infos[i].text.len() > 0 {
            assert(shows_something(models[i as int]));
            return true;
        }
        i = i + 1;
    }
    false
}

/// Whether the levels that mask steps test are numbers of levels.
pub open spec fn mask_levels_fit(events: Seq<EventModel>) -> bool {
    forall|i: int|
        0 <= i < events.len() ==> (#[trigger] events[i] matches EventModel::AreaOp { op, .. } ==> 0
            <= op.at < u32::MAX)
}

proof fn lemma_levels_bounded(events: Seq<EventModel>)
    requires
        2 * events.len() < u32::MAX,
    ensures
        ({
            let l = stencil::levels_after(events, LevelModel::start());
            &&& 0 <= l.clip_depth <= events.len()
            &&& 0 <= l.area_depth <= events.len()
            &&& forall|i: int| 0 <= i < l.refs.len() ==> #[trigger] l.refs[i] <= 2 * events.len()
        }),
    decreases events.len(),
{
    if events.len() > 0 {
        lemma_levels_bounded(events.drop_last());
    }
}

/// Every level that a frame tests is below the largest number.
proof fn lemma_references_bounded(events: Seq<EventModel>)
    requires
        2 * events.len() < u32::MAX,
        mask_levels_fit(events),
    ensures
        ({
            let uses = stencil::uses_of(events, LevelModel::start());
            &&& uses.len() == events.len()
            &&& forall|i: int| 0 <= i < uses.len() ==> (#[trigger] uses[i]).reference < u32::MAX
        }),
    decreases events.len(),
{
    if events.len() > 0 {
        let rest = events.drop_last();
        lemma_levels_bounded(rest);
        assert(mask_levels_fit(rest)) by {
            assert forall|i: int| 0 <= i < rest.len() implies (#[trigger] rest[i] matches EventModel::AreaOp {
                op,
                ..
            } ==> 0 <= op.at < u32::MAX) by {
                assert(rest[i] == events[i]);
            }
        }
        lemma_references_bounded(rest);
        let l = stencil::levels_after(rest, LevelModel::start());
        let e = events.last();
        assert(e == events[events.len() - 1]);
        assert(l.event_use(e).reference < u32::MAX);
    }
}

impl Renderer {
    /// Plans a frame from its events. There is nothing to send if nothing is drawn
    /// and the target is not cleared. `boxes` has the pixels of each rectangle to
    /// cut to, `texts` the runs of glyphs of each event, and `width` and `height`
    /// are the target's size in logical pixels.
    pub fn draw(
        &self,
        events: &Vec<DrawEvent>,
        boxes: &Vec<Option<PixelBox>>,
        texts: &Vec<Vec<TextureSegment>>,
        clears: bool,
        width: F32Bits,
        height: F32Bits,
    ) -> (r: Option<FramePlan>)
        requires
            2 * events.len() < u32::MAX,
            boxes.len() == events.len(),
            texts.len() == events.len(),
            mask_levels_fit(flatten::event_models(events@)),
            frame::frame_fits(flatten::event_models(events@), width, height),
        ensures
            r is Some <==> clears || stencil::draws_something(flatten::event_models(events@)),
            r matches Some(plan) ==> {
                let models = flatten::event_models(events@);
                let uses = stencil::uses_of(models, LevelModel::start());
                let geometry = frame::frame_of(models, width, height);
                let infos = infos_of(models, uses, geometry.shapes, boxes@, text_models(texts@));
                &&& plan.geometry@ == geometry
                &&& plan.uses_stencil == stencil::needs_stencil(models)
                &&& pass::info_models(plan.infos@) == infos
                &&& plan.commands@ == pass::pass_of(
                    infos,
                    plan.uses_stencil,
                    self.physical_width,
                    self.physical_height,
                ).0
                &&& plan.opens_pass == (clears || any_shows(infos))
            },
    {
        let ghost models = flatten::event_models(events@);
        if !has_content(events, clears) {
            return None;
        }
        let uses_stencil = uses_stencil(events);
        let uses = plan_stencil(events);
        let geometry = build_frame(events, width, height);
        proof {
            lemma_references_bounded(models);
            frame_laws::lemma_one_shape_per_event(models, width, height);
        }
        assert(geometry.shapes@.len() == frame::shape_models(geometry.shapes@).len());
        let infos = event_infos(events, &uses, &geometry.shapes, boxes, texts);
        assert(pass::info_models(infos@).len() == models.len());
        assert forall|i: int| 0 <= i < infos.len() implies (#[trigger] infos@[i]).stencil.reference
            < u32::MAX by {
            assert(pass::info_models(infos@)[i] == infos@[i]@);
            assert(infos@[i]@.stencil == uses@[i]);
            assert(uses@[i].reference < u32::MAX);
        }
        let commands = plan_pass(&infos, uses_stencil, self.physical_width, self.physical_height);
        let opens_pass = any_info_shows(&infos) || clears;
        Some(FramePlan { geometry, infos, commands, uses_stencil, opens_pass })
    }
}

} // verus!
