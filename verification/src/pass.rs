//! The commands of a render pass.
//!
//! Pipelines are bound only when they have to be. The commands of a whole pass
//! are worked out here; the caller hands them to the GPU one by one.

use vstd::prelude::*;
use crate::batch::TextureSegment;
use crate::frame::{ShapeInfo, ShapeModel};
use crate::stencil::StencilUse;

verus! {

/// A box of pixels by its edges; `right` and `bottom` are outside.
#[derive(Clone, Copy, Debug, PartialEq, Eq, Structural)]
pub struct PixelBox {
    pub left: u32,
    pub top: u32,
    pub right: u32,
    pub bottom: u32,
}

/// A box of pixels by its corner and size.
#[derive(Clone, Copy, Debug, PartialEq, Eq, Structural)]
pub struct PixelRect {
    pub x: u32,
    pub y: u32,
    pub w: u32,
    pub h: u32,
}

impl PixelRect {
    /// Whether a pixel lies in the box.
    pub open spec fn has(self, px: int, py: int) -> bool {
        self.x <= px < self.x + self.w && self.y <= py < self.y + self.h
    }

    /// The box ends within 32 bits.
    pub open spec fn fits(self) -> bool {
        self.x + self.w <= u32::MAX && self.y + self.h <= u32::MAX
    }

    /// What a box and this one have in common; all zeros if nothing.
    pub open spec fn cut(self, b: PixelBox) -> PixelRect {
        let left = if b.left >= self.x {
            b.left
        } else {
            self.x
        };
        let top = if b.top >= self.y {
            b.top
        } else {
            self.y
        };
        let right = if b.right <= self.x + self.w {
            b.right as int
        } else {
            self.x + self.w
        };
        let bottom = if b.bottom <= self.y + self.h {
            b.bottom as int
        } else {
            self.y + self.h
        };
        if right > left && bottom > top {
            PixelRect { x: left, y: top, w: (right - left) as u32, h: (bottom - top) as u32 }
        } else {
            PixelRect { x: 0, y: 0, w: 0, h: 0 }
        }
    }
}

/// Law: a pixel lies in the cut exactly if it lies in both boxes.
pub proof fn lemma_cut_is_intersection(r: PixelRect, b: PixelBox, px: int, py: int)
    requires
        r.fits(),
    ensures
        r.cut(b).has(px, py) == (r.has(px, py) && b.left <= px < b.right && b.top <= py < b.bottom),
        r.cut(b).fits(),
{
}

/// How texts use the stencil buffer.
#[derive(Clone, Copy, Debug, PartialEq, Eq, Structural)]
pub enum TextStencilMode {
    /// There is no stencil buffer.
    Off,
    /// Texts are drawn where it equals their reference.
    Test,
    /// Texts are drawn everywhere.
    Pass,
}

/// The pipeline of a shape. `op` is how it uses the stencil, where there is
/// one.
#[allow(inconsistent_fields)]
#[derive(Clone, Copy, Debug, PartialEq, Eq)]
pub enum ShapePipeline {
    /// That of a material.
    Custom { material: u32, op: Option<u32> },
    /// A built-in one with stencil.
    Stencil { geometry: bool, op: u32 },
    /// A built-in one without stencil.
    Plain { geometry: bool },
}

/// One command of a pass.
#[derive(Clone, Copy, Debug, PartialEq, Eq)]
pub enum PassCommand {
    SetScissor(PixelRect),
    /// Bind the pipeline of event `event`'s shapes with all its buffers.
    BindShapes { event: usize, pipeline: ShapePipeline },
    /// Bind the pipeline of instances with all its buffers.
    BindInstances { op: u32 },
    SetReference(u32),
    DrawIndexed { event: usize, start: u32, count: u32, base_vertex: u32, bind_group: Option<u32> },
    DrawInstances { event: usize, start: u32, count: u32, bind_group: Option<u32> },
    SetTextMode(TextStencilMode),
    DrawText { event: usize, start: u32, count: u32, bind_group: Option<u32>, reference: Option<
        u32,
    > },
}

/// What a pass knows of one event.
#[derive(Debug)]
pub struct EventInfo {
    pub shape: Option<ShapeInfo>,
    /// Runs of glyphs with their textures.
    pub text: Vec<TextureSegment>,
    pub stencil: StencilUse,
    /// The box to cut to from here on.
    pub scissor_push: Option<PixelBox>,
    /// Whether the last such cut ends here.
    pub scissor_pop: bool,
    pub custom_material: Option<u32>,
    pub dynamic_offsets: Vec<u32>,
}

/// What an [`EventInfo`] holds.
pub struct InfoModel {
    pub shape: Option<ShapeModel>,
    pub text: Seq<TextureSegment>,
    pub stencil: StencilUse,
    pub scissor_push: Option<PixelBox>,
    pub scissor_pop: bool,
    pub custom_material: Option<u32>,
    pub dynamic_offsets: Seq<u32>,
}

impl View for EventInfo {
    type V = InfoModel;

    open spec fn view(&self) -> InfoModel {
        InfoModel {
            shape: match self.shape {
                Some(s) => Some(s@),
                None => None,
            },
            text: self.text@,
            stencil: self.stencil,
            scissor_push: self.scissor_push,
            scissor_pop: self.scissor_pop,
            custom_material: self.custom_material,
            dynamic_offsets: self.dynamic_offsets@,
        }
    }
}

/// What some infos hold.
pub open spec fn info_models(infos: Seq<EventInfo>) -> Seq<InfoModel> {
    infos.map_values(|i: EventInfo| i@)
}

/// What is bound in the course of a pass.
pub struct PassModel {
    /// Whether shapes can be drawn with what is bound.
    pub bound: bool,
    pub geometry: Option<bool>,
    pub op: u32,
    pub material: Option<u32>,
    pub offsets: Seq<u32>,
    pub text_mode: Option<TextStencilMode>,
    /// The boxes cut to, the whole target first.
    pub scissors: Seq<PixelRect>,
}

/// An op as the pipelines know it: at most 4.
pub open spec fn pipeline_op(op: u32) -> u32 {
    if op <= 4 {
        op
    } else {
        4
    }
}

/// The pipeline of shapes with the given properties.
pub open spec fn pipeline_of(
    material: Option<u32>,
    geometry: bool,
    op: u32,
    uses_stencil: bool,
) -> ShapePipeline {
    match material {
        Some(material) => ShapePipeline::Custom {
            material,
            op: if uses_stencil {
                Some(pipeline_op(op))
            } else {
                None
            },
        },
        None => if uses_stencil {
            ShapePipeline::Stencil { geometry, op: pipeline_op(op) }
        } else {
            ShapePipeline::Plain { geometry }
        },
    }
}

/// The commands that draw runs of indices.
pub open spec fn index_draws(
    event: usize,
    base_vertex: int,
    segments: Seq<TextureSegment>,
) -> Seq<PassCommand> {
    segments.map_values(
        |s: TextureSegment|
            PassCommand::DrawIndexed {
                event,
                start: s.start,
                count: s.count,
                base_vertex: base_vertex as u32,
                bind_group: s.bind_group,
            },
    )
}

/// The commands that draw runs of instances.
pub open spec fn instance_draws(event: usize, segments: Seq<TextureSegment>) -> Seq<PassCommand> {
    segments.map_values(
        |s: TextureSegment|
            PassCommand::DrawInstances {
                event,
                start: s.start,
                count: s.count,
                bind_group: s.bind_group,
            },
    )
}

/// The commands that draw runs of glyphs.
pub open spec fn text_draws(
    event: usize,
    segments: Seq<TextureSegment>,
    reference: Option<u32>,
) -> Seq<PassCommand> {
    segments.map_values(
        |s: TextureSegment|
            PassCommand::DrawText {
                event,
                start: s.start,
                count: s.count,
                bind_group: s.bind_group,
                reference,
            },
    )
}

impl InfoModel {
    /// Whether texts of the event test the stencil.
    pub open spec fn text_tests(self) -> bool {
        self.stencil.area || self.stencil.op == 1 || self.stencil.op == 2
    }

    /// How texts of the event use the stencil.
    pub open spec fn text_mode(self, uses_stencil: bool) -> TextStencilMode {
        if !uses_stencil {
            TextStencilMode::Off
        } else if self.text_tests() {
            TextStencilMode::Test
        } else {
            TextStencilMode::Pass
        }
    }

    /// The level that texts of the event are drawn at: after its shapes have
    /// raised the stencil, if they do.
    pub open spec fn text_reference(self) -> int {
        if self.stencil.op == 1 {
            self.stencil.reference + 1
        } else {
            self.stencil.reference as int
        }
    }

    /// The pipeline of the event's shapes.
    pub open spec fn pipeline(self, uses_stencil: bool) -> ShapePipeline {
        pipeline_of(self.custom_material, self.shape->0.geometry, self.stencil.op, uses_stencil)
    }
}

impl PassModel {
    /// At the start of a pass onto a target of the given size.
    pub open spec fn start(width: u32, height: u32) -> PassModel {
        PassModel {
            bound: false,
            geometry: None,
            op: u32::MAX,
            material: None,
            offsets: seq![],
            text_mode: None,
            scissors: seq![PixelRect { x: 0, y: 0, w: width, h: height }],
        }
    }

    /// The box cut to; the whole target if there is none.
    pub open spec fn scissor(self, width: u32, height: u32) -> PixelRect {
        if self.scissors.len() > 0 {
            self.scissors.last()
        } else {
            PixelRect { x: 0, y: 0, w: width, h: height }
        }
    }

    /// Whether the pipeline of the event's shapes has to be bound.
    pub open spec fn must_bind(self, info: InfoModel, uses_stencil: bool) -> bool {
        ||| !self.bound
        ||| info.custom_material != self.material
        ||| (info.custom_material is None && self.geometry != Some(info.shape->0.geometry))
        ||| (uses_stencil && info.stencil.op != self.op)
        ||| info.dynamic_offsets != self.offsets
    }

    /// The commands and the state after the scissor part of an event.
    pub open spec fn scissor_part(self, info: InfoModel, width: u32, height: u32) -> (
        Seq<PassCommand>,
        PassModel,
    ) {
        let pushed = match info.scissor_push {
            Some(b) => {
                let r = self.scissor(width, height).cut(b);
                (
                    seq![PassCommand::SetScissor(r)],
                    PassModel { scissors: self.scissors.push(r), ..self },
                )
            },
            None => (seq![], self),
        };
        if info.scissor_pop {
            let popped = PassModel {
                scissors: if pushed.1.scissors.len() > 0 {
                    pushed.1.scissors.drop_last()
                } else {
                    pushed.1.scissors
                },
                ..pushed.1
            };
            (pushed.0.push(PassCommand::SetScissor(popped.scissor(width, height))), popped)
        } else {
            pushed
        }
    }

    /// The commands and the state after the shapes of an event.
    pub open spec fn shape_part(self, info: InfoModel, event: usize, uses_stencil: bool) -> (
        Seq<PassCommand>,
        PassModel,
    ) {
        match info.shape {
            None => (seq![], self),
            Some(shape) => {
                let binds = self.must_bind(info, uses_stencil);
                let reference: Seq<PassCommand> = if uses_stencil {
                    seq![PassCommand::SetReference(info.stencil.reference)]
                } else {
                    seq![]
                };
                let head: Seq<PassCommand> = if binds {
                    seq![PassCommand::BindShapes { event, pipeline: info.pipeline(uses_stencil) }]
                } else {
                    seq![]
                };
                let drawn = head + reference + index_draws(
                    event,
                    shape.base_vertex,
                    shape.segments,
                );
                let bound = if binds {
                    PassModel {
                        bound: true,
                        geometry: Some(shape.geometry),
                        op: info.stencil.op,
                        material: info.custom_material,
                        offsets: info.dynamic_offsets,
                        ..self
                    }
                } else {
                    self
                };
                if shape.instances.len() > 0 {
                    (
                        drawn + seq![PassCommand::BindInstances { op: info.stencil.op }]
                            + reference + instance_draws(event, shape.instances),
                        PassModel { bound: false, geometry: None, ..bound },
                    )
                } else {
                    (drawn, bound)
                }
            },
        }
    }

    /// The commands and the state after the texts of an event.
    pub open spec fn text_part(self, info: InfoModel, event: usize, uses_stencil: bool) -> (
        Seq<PassCommand>,
        PassModel,
    ) {
        if info.text.len() == 0 {
            (seq![], self)
        } else {
            let mode = info.text_mode(uses_stencil);
            let head: Seq<PassCommand> = if self.text_mode != Some(mode) {
                seq![PassCommand::SetTextMode(mode)]
            } else {
                seq![]
            };
            (
                head + text_draws(
                    event,
                    info.text,
                    if uses_stencil {
                        Some(info.text_reference() as u32)
                    } else {
                        None
                    },
                ),
                PassModel { text_mode: Some(mode), bound: false, geometry: None, ..self },
            )
        }
    }

    /// The commands and the state after an event.
    pub open spec fn event_part(
        self,
        info: InfoModel,
        event: usize,
        uses_stencil: bool,
        width: u32,
        height: u32,
    ) -> (Seq<PassCommand>, PassModel) {
        let a = self.scissor_part(info, width, height);
        let b = a.1.shape_part(info, event, uses_stencil);
        let c = b.1.text_part(info, event, uses_stencil);
        (a.0 + b.0 + c.0, c.1)
    }
}

/// The commands and the state after some events.
pub open spec fn pass_of(
    infos: Seq<InfoModel>,
    uses_stencil: bool,
    width: u32,
    height: u32,
) -> (Seq<PassCommand>, PassModel)
    decreases infos.len(),
{
    if infos.len() == 0 {
        (seq![], PassModel::start(width, height))
    } else {
        let before = pass_of(infos.drop_last(), uses_stencil, width, height);
        let part = before.1.event_part(
            infos.last(),
            (infos.len() - 1) as usize,
            uses_stencil,
            width,
            height,
        );
        (before.0 + part.0, part.1)
    }
}

/// What is bound in the course of a pass, in executable form.
struct PassState {
    bound: bool,
    geometry: Option<bool>,
    op: u32,
    material: Option<u32>,
    offsets: Vec<u32>,
    text_mode: Option<TextStencilMode>,
    scissors: Vec<PixelRect>,
}

impl PassState {
    spec fn model(self) -> PassModel {
        PassModel {
            bound: self.bound,
            geometry: self.geometry,
            op: self.op,
            material: self.material,
            offsets: self.offsets@,
            text_mode: self.text_mode,
            scissors: self.scissors@,
        }
    }

    fn scissor(&self, width: u32, height: u32) -> (r: PixelRect)
        ensures
            r == self.model().scissor(width, height),
    {
        if self.scissors.len() > 0 {
            self.scissors[self.scissors.len() - 1]
        } else {
            PixelRect { x: 0, y: 0, w: width, h: height }
        }
    }

    fn scissor_commands(
        &mut self,
        info: &EventInfo,
        width: u32,
        height: u32,
        out: &mut Vec<PassCommand>,
    )
        requires
            forall|i: int| 0 <= i < old(self).scissors.len() ==> (#[trigger] old(self).scissors@[i]).fits(),
        ensures
            final(out)@ == old(out)@ + old(self).model().scissor_part(info@, width, height).0,
            final(self).model() == old(self).model().scissor_part(info@, width, height).1,
            forall|i: int| 0 <= i < final(self).scissors.len() ==> (#[trigger] final(self).scissors@[i]).fits(),
    {
        let ghost before = out@;
        let ghost state = self.model();
        let ghost part = state.scissor_part(info@, width, height);
        if let Some(b) = info.scissor_push {
            let r = cut(self.scissor(width, height), b);
            out.push(PassCommand::SetScissor(r));
            self.scissors.push(r);
        }
        if info.scissor_pop {
            let _ = self.scissors.pop();
            out.push(PassCommand::SetScissor(self.scissor(width, height)));
        }
        assert(out@ =~= before + part.0);
        assert(self.model().scissors =~= part.1.scissors);
    }

    fn shape_commands(
        &mut self,
        info: &EventInfo,
        event: usize,
        uses_stencil: bool,
        out: &mut Vec<PassCommand>,
    )
        ensures
            final(out)@ == old(out)@ + old(self).model().shape_part(info@, event, uses_stencil).0,
            final(self).model() == old(self).model().shape_part(info@, event, uses_stencil).1,
            final(self).scissors == old(self).scissors,
    {
        let ghost before = out@;
        let ghost state = self.model();
        let ghost part = state.shape_part(info@, event, uses_stencil);
        if let Some(shape) = &info.shape {
            let same_offsets = same_words(&info.dynamic_offsets, &self.offsets);
            let same_material = same_option(info.custom_material, self.material);
            let same_geometry = match self.geometry {
                Some(g) => g == shape.geometry,
                None => false,
            };
            let binds = !self.bound || !same_material || (info.custom_material.is_none()
                && !same_geometry) || (uses_stencil && info.stencil.op != self.op)
                || !same_offsets;
            if binds {
                let pipeline = choose_pipeline(
                    info.custom_material,
                    shape.geometry,
                    info.stencil.op,
                    uses_stencil,
                );
                out.push(PassCommand::BindShapes { event, pipeline });
                self.bound = true;
                self.geometry = Some(shape.geometry);
                self.op = info.stencil.op;
                self.material = info.custom_material;
                self.offsets = info.dynamic_offsets.clone();
                assert(self.offsets@ =~= info.dynamic_offsets@);
            }
            if uses_stencil {
                out.push(PassCommand::SetReference(info.stencil.reference));
            }
            let ghost head = out@;
            push_index_draws(event, shape, out);
            let ghost drawn = index_draws(event, shape@.base_vertex, shape@.segments);
            if shape.instances.len() > 0 {
                out.push(PassCommand::BindInstances { op: info.stencil.op });
                if uses_stencil {
                    out.push(PassCommand::SetReference(info.stencil.reference));
                }
                push_instance_draws(event, &shape.instances, out);
                self.bound = false;
                self.geometry = None;
            }
        }
        assert(out@ =~= before + part.0);
    }

    fn text_commands(
        &mut self,
        info: &EventInfo,
        event: usize,
        uses_stencil: bool,
        out: &mut Vec<PassCommand>,
    )
        requires
            info.stencil.reference < u32::MAX,
        ensures
            final(out)@ == old(out)@ + old(self).model().text_part(info@, event, uses_stencil).0,
            final(self).model() == old(self).model().text_part(info@, event, uses_stencil).1,
            final(self).scissors == old(self).scissors,
    {
        let ghost before = out@;
        let ghost state = self.model();
        let ghost part = state.text_part(info@, event, uses_stencil);
        if info.text.len() > 0 {
            let mode = text_mode(info, uses_stencil);
            let same_mode = match self.text_mode {
                Some(m) => m == mode,
                None => false,
            };
            if !same_mode {
                out.push(PassCommand::SetTextMode(mode));
                self.text_mode = Some(mode);
            }
            let reference: Option<u32> = if uses_stencil {
                Some(text_reference(info))
            } else {
                None
            };
            push_text_draws(event, &info.text, reference, out);
            self.bound = false;
            self.geometry = None;
        }
        assert(out@ =~= before + part.0);
    }
}

/// How texts of an event use the stencil.
pub fn text_mode(info: &EventInfo, uses_stencil: bool) -> (r: TextStencilMode)
    ensures
        r == info@.text_mode(uses_stencil),
{
    if !uses_stencil {
        TextStencilMode::Off
    } else if info.stencil.area || info.stencil.op == 1 || info.stencil.op == 2 {
        TextStencilMode::Test
    } else {
        TextStencilMode::Pass
    }
}

/// The stencil op of a material's text pipeline: 2 where texts test the
/// stencil, else 0.
pub fn material_text_op(stencil: StencilUse, uses_stencil: bool) -> (r: u32)
    ensures
        r == (if uses_stencil && (stencil.op == 1 || stencil.op == 2 || stencil.area) {
            2u32
        } else {
            0u32
        }),
{
    if uses_stencil && (stencil.op == 1 || stencil.op == 2 || stencil.area) {
        2
    } else {
        0
    }
}

/// The level that texts of an event are drawn at.
pub fn text_reference(info: &EventInfo) -> (r: u32)
    requires
        info.stencil.reference < u32::MAX,
    ensures
        r == info@.text_reference(),
{
    if info.stencil.op == 1 {
        info.stencil.reference + 1
    } else {
        info.stencil.reference
    }
}

fn choose_pipeline(
    material: Option<u32>,
    geometry: bool,
    op: u32,
    uses_stencil: bool,
) -> (r: ShapePipeline)
    ensures
        r == pipeline_of(material, geometry, op, uses_stencil),
{
    let op: u32 = if op <= 4 {
        op
    } else {
        4
    };
    match material {
        Some(material) => ShapePipeline::Custom {
            material,
            op: if uses_stencil {
                Some(op)
            } else {
                None
            },
        },
        None => {
            if uses_stencil {
                ShapePipeline::Stencil { geometry, op }
            } else {
                ShapePipeline::Plain { geometry }
            }
        },
    }
}

/// What a box and a rectangle have in common; all zeros if nothing.
pub fn cut(r: PixelRect, b: PixelBox) -> (c: PixelRect)
    requires
        r.fits(),
    ensures
        c == r.cut(b),
        c.fits(),
{
    let left: u32 = if b.left >= r.x {
        b.left
    } else {
        r.x
    };
    let top: u32 = if b.top >= r.y {
        b.top
    } else {
        r.y
    };
    let right: u32 = if b.right <= r.x + r.w {
        b.right
    } else {
        r.x + r.w
    };
    let bottom: u32 = if b.bottom <= r.y + r.h {
        b.bottom
    } else {
        r.y + r.h
    };
    if right > left && bottom > top {
        PixelRect { x: left, y: top, w: right - left, h: bottom - top }
    } else {
        PixelRect { x: 0, y: 0, w: 0, h: 0 }
    }
}

fn same_words(a: &Vec<u32>, b: &Vec<u32>) -> (r: bool)
    ensures
        r == (a@ == b@),
{
    if a.len() != b.len() {
        return false;
    }
    let mut i: usize = 0;
    while i < a.len()
        invariant
            i <= a.len(),
            a.len() == b.len(),
            forall|j: int| 0 <= j < i ==> a@[j] == b@[j],
        decreases a.len() - i,
    {
        if a[i] != b[i] {
            return false;
        }
        i = i + 1;
    }
    assert(a@ =~= b@);
    true
}

fn same_option(a: Option<u32>, b: Option<u32>) -> (r: bool)
    ensures
        r == (a == b),
{
    match (a, b) {
        (Some(a), Some(b)) => a == b,
        (None, None) => true,
        _ => false,
    }
}

fn push_index_draws(event: usize, shape: &ShapeInfo, out: &mut Vec<PassCommand>)
    ensures
        final(out)@ == old(out)@ + index_draws(event, shape@.base_vertex, shape@.segments),
{
    let ghost before = out@;
    let ghost draws = index_draws(event, shape@.base_vertex, shape@.segments);
    let mut i: usize = 0;
    assert(before + draws.take(0) =~= before);
    while i < shape.segments.len()
        invariant
            i <= shape.segments.len(),
            draws == index_draws(event, shape@.base_vertex, shape@.segments),
            out@ == before + draws.take(i as int),
        decreases shape.segments.len() - i,
    {
        let s = shape.segments[i];
        out.push(
            PassCommand::DrawIndexed {
                event,
                start: s.start,
                count: s.count,
                base_vertex: shape.base_vertex,
                bind_group: s.bind_group,
            },
        );
        assert(out@ =~= before + draws.take(i + 1));
        i = i + 1;
    }
    assert(draws.take(i as int) =~= draws);
}

fn push_instance_draws(event: usize, segments: &Vec<TextureSegment>, out: &mut Vec<PassCommand>)
    ensures
        final(out)@ == old(out)@ + instance_draws(event, segments@),
{
    let ghost before = out@;
    let ghost draws = instance_draws(event, segments@);
    let mut i: usize = 0;
    assert(before + draws.take(0) =~= before);
    while i < segments.len()
        invariant
            i <= segments.len(),
            draws == instance_draws(event, segments@),
            out@ == before + draws.take(i as int),
        decreases segments.len() - i,
    {
        let s = segments[i];
        out.push(
            PassCommand::DrawInstances {
                event,
                start: s.start,
                count: s.count,
                bind_group: s.bind_group,
            },
        );
        assert(out@ =~= before + draws.take(i + 1));
        i = i + 1;
    }
    assert(draws.take(i as int) =~= draws);
}

fn push_text_draws(
    event: usize,
    segments: &Vec<TextureSegment>,
    reference: Option<u32>,
    out: &mut Vec<PassCommand>,
)
    ensures
        final(out)@ == old(out)@ + text_draws(event, segments@, reference),
{
    let ghost before = out@;
    let ghost draws = text_draws(event, segments@, reference);
    let mut i: usize = 0;
    assert(before + draws.take(0) =~= before);
    while i < segments.len()
        invariant
            i <= segments.len(),
            draws == text_draws(event, segments@, reference),
            out@ == before + draws.take(i as int),
        decreases segments.len() - i,
    {
        let s = segments[i];
        out.push(
            PassCommand::DrawText {
                event,
                start: s.start,
                count: s.count,
                bind_group: s.bind_group,
                reference,
            },
        );
        assert(out@ =~= before + draws.take(i + 1));
        i = i + 1;
    }
    assert(draws.take(i as int) =~= draws);
}

/// Works out the commands of a pass onto a target of the given size.
pub fn plan_pass(infos: &Vec<EventInfo>, uses_stencil: bool, width: u32, height: u32) -> (r: Vec<
    PassCommand,
>)
    requires
        forall|i: int|
            0 <= i < infos.len() ==> (#[trigger] infos@[i]).stencil.reference < u32::MAX,
    ensures
        r@ == pass_of(info_models(infos@), uses_stencil, width, height).0,
{
    let ghost models = info_models(infos@);
    let mut out: Vec<PassCommand> = Vec::new();
    let mut scissors: Vec<PixelRect> = Vec::new();
    scissors.push(PixelRect { x: 0, y: 0, w: width, h: height });
    let mut state = PassState {
        bound: false,
        geometry: None,
        op: u32::MAX,
        material: None,
        offsets: Vec::new(),
        text_mode: None,
        scissors,
    };
    assert(state.model().scissors =~= PassModel::start(width, height).scissors);
    assert(state.model().offsets =~= PassModel::start(width, height).offsets);
    assert(models.take(0) =~= seq![]);
    let mut i: usize = 0;
    while i < infos.len()
        invariant
            i <= infos.len(),
            models == info_models(infos@),
            forall|j: int|
                0 <= j < infos.len() ==> (#[trigger] infos@[j]).stencil.reference < u32::MAX,
            forall|j: int| 0 <= j < state.scissors.len() ==> (#[trigger] state.scissors@[j]).fits(),
            out@ == pass_of(models.take(i as int), uses_stencil, width, height).0,
            state.model() == pass_of(models.take(i as int), uses_stencil, width, height).1,
        decreases infos.len() - i,
    {
        assert(models.take(i + 1).drop_last() =~= models.take(i as int));
        assert(models.take(i + 1).last() == infos@[i as int]@);
        let ghost before = out@;
        let ghost start = state.model();
        let info = &infos[i];
        state.scissor_commands(info, width, height, &mut out);
        state.shape_commands(info, i, uses_stencil, &mut out);
        state.text_commands(info, i, uses_stencil, &mut out);
        assert(out@ =~= before + start.event_part(info@, i, uses_stencil, width, height).0);
        i = i + 1;
    }
    assert(models.take(i as int) =~= models);
    out
}

} // verus!
