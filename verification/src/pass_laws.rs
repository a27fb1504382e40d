//! Every draw of a pass finds the right pipeline and stencil reference.

use vstd::prelude::*;
use crate::batch::TextureSegment;
use crate::pass;
use crate::pass::{InfoModel, PassCommand, PassModel, ShapePipeline};

verus! {

/// What the GPU has bound. Binding a pipeline forgets the stencil reference.
pub struct GpuModel {
    /// The pipeline of shapes, if one is bound.
    pub shapes: Option<ShapePipeline>,
    /// The stencil op of the pipeline of instances, if one is bound.
    pub instances: Option<u32>,
    pub reference: Option<u32>,
}

impl GpuModel {
    /// At the start of a pass.
    pub open spec fn start() -> GpuModel {
        GpuModel { shapes: None, instances: None, reference: None }
    }

    /// After one command.
    pub open spec fn after(self, c: PassCommand) -> GpuModel {
        match c {
            PassCommand::BindShapes { pipeline, .. } => GpuModel {
                shapes: Some(pipeline),
                instances: None,
                reference: None,
            },
            PassCommand::BindInstances { op } => GpuModel {
                shapes: None,
                instances: Some(op),
                reference: None,
            },
            PassCommand::SetReference(r) => GpuModel { reference: Some(r), ..self },
            PassCommand::DrawText { .. } => GpuModel::start(),
            _ => self,
        }
    }

    /// Whether a command finds what it needs.
    pub open spec fn serves(
        self,
        c: PassCommand,
        infos: Seq<InfoModel>,
        uses_stencil: bool,
    ) -> bool {
        match c {
            PassCommand::DrawIndexed { event, .. } => {
                &&& self.shapes == Some(infos[event as int].pipeline(uses_stencil))
                &&& uses_stencil ==> self.reference == Some(infos[event as int].stencil.reference)
            },
            PassCommand::DrawInstances { event, .. } => {
                &&& self.instances == Some(infos[event as int].stencil.op)
                &&& uses_stencil ==> self.reference == Some(infos[event as int].stencil.reference)
            },
            _ => true,
        }
    }

    /// After some commands.
    pub open spec fn after_all(self, cs: Seq<PassCommand>) -> GpuModel
        decreases cs.len(),
    {
        if cs.len() == 0 {
            self
        } else {
            self.after_all(cs.drop_last()).after(cs.last())
        }
    }

    /// Whether each of some commands finds what it needs.
    pub open spec fn serves_all(
        self,
        cs: Seq<PassCommand>,
        infos: Seq<InfoModel>,
        uses_stencil: bool,
    ) -> bool
        decreases cs.len(),
    {
        if cs.len() == 0 {
            true
        } else {
            self.serves_all(cs.drop_last(), infos, uses_stencil) && self.after_all(
                cs.drop_last(),
            ).serves(cs.last(), infos, uses_stencil)
        }
    }
}

proof fn lemma_concat(
    g: GpuModel,
    a: Seq<PassCommand>,
    b: Seq<PassCommand>,
    infos: Seq<InfoModel>,
    uses_stencil: bool,
)
    ensures
        g.after_all(a + b) == g.after_all(a).after_all(b),
        g.serves_all(a + b, infos, uses_stencil) == (g.serves_all(a, infos, uses_stencil)
            && g.after_all(a).serves_all(b, infos, uses_stencil)),
    decreases b.len(),
{
    if b.len() == 0 {
        assert(a + b =~= a);
    } else {
        lemma_concat(g, a, b.drop_last(), infos, uses_stencil);
        assert((a + b).drop_last() =~= a + b.drop_last());
    }
}

proof fn lemma_one(g: GpuModel, c: PassCommand, infos: Seq<InfoModel>, uses_stencil: bool)
    ensures
        g.after_all(seq![c]) == g.after(c),
        g.serves_all(seq![c], infos, uses_stencil) == g.serves(c, infos, uses_stencil),
{
    assert(seq![c].drop_last() =~= Seq::<PassCommand>::empty());
    assert(g.after_all(seq![c].drop_last()) == g);
    assert(g.serves_all(seq![c].drop_last(), infos, uses_stencil));
}

/// Commands that need and change nothing.
pub open spec fn is_quiet(c: PassCommand) -> bool {
    c is SetScissor || c is SetTextMode
}

proof fn lemma_quiet(
    g: GpuModel,
    cs: Seq<PassCommand>,
    infos: Seq<InfoModel>,
    uses_stencil: bool,
)
    requires
        forall|i: int| 0 <= i < cs.len() ==> is_quiet(#[trigger] cs[i]),
    ensures
        g.after_all(cs) == g,
        g.serves_all(cs, infos, uses_stencil),
    decreases cs.len(),
{
    if cs.len() > 0 {
        let rest = cs.drop_last();
        assert forall|i: int| 0 <= i < rest.len() implies is_quiet(#[trigger] rest[i]) by {
            assert(rest[i] == cs[i]);
        }
        lemma_quiet(g, rest, infos, uses_stencil);
        assert(is_quiet(cs[cs.len() - 1]));
    }
}

proof fn lemma_index_draws(
    g: GpuModel,
    event: usize,
    base_vertex: int,
    segments: Seq<TextureSegment>,
    infos: Seq<InfoModel>,
    uses_stencil: bool,
)
    requires
        g.shapes == Some(infos[event as int].pipeline(uses_stencil)),
        uses_stencil ==> g.reference == Some(infos[event as int].stencil.reference),
    ensures
        g.after_all(pass::index_draws(event, base_vertex, segments)) == g,
        g.serves_all(pass::index_draws(event, base_vertex, segments), infos, uses_stencil),
    decreases segments.len(),
{
    let draws = pass::index_draws(event, base_vertex, segments);
    if segments.len() > 0 {
        lemma_index_draws(g, event, base_vertex, segments.drop_last(), infos, uses_stencil);
        assert(draws.drop_last() =~= pass::index_draws(
            event,
            base_vertex,
            segments.drop_last(),
        ));
    }
}

proof fn lemma_instance_draws(
    g: GpuModel,
    event: usize,
    segments: Seq<TextureSegment>,
    infos: Seq<InfoModel>,
    uses_stencil: bool,
)
    requires
        g.instances == Some(infos[event as int].stencil.op),
        uses_stencil ==> g.reference == Some(infos[event as int].stencil.reference),
    ensures
        g.after_all(pass::instance_draws(event, segments)) == g,
        g.serves_all(pass::instance_draws(event, segments), infos, uses_stencil),
    decreases segments.len(),
{
    let draws = pass::instance_draws(event, segments);
    if segments.len() > 0 {
        lemma_instance_draws(g, event, segments.drop_last(), infos, uses_stencil);
        assert(draws.drop_last() =~= pass::instance_draws(event, segments.drop_last()));
    }
}

proof fn lemma_text_draws(
    g: GpuModel,
    event: usize,
    segments: Seq<TextureSegment>,
    reference: Option<u32>,
    infos: Seq<InfoModel>,
    uses_stencil: bool,
)
    ensures
        g.serves_all(pass::text_draws(event, segments, reference), infos, uses_stencil),
    decreases segments.len(),
{
    let draws = pass::text_draws(event, segments, reference);
    if segments.len() > 0 {
        lemma_text_draws(g, event, segments.drop_last(), reference, infos, uses_stencil);
        assert(draws.drop_last() =~= pass::text_draws(event, segments.drop_last(), reference));
    }
}

/// What the pass takes to be bound is bound.
pub open spec fn in_step(p: PassModel, g: GpuModel, uses_stencil: bool) -> bool {
    p.bound ==> p.geometry is Some && g.shapes == Some(
        pass::pipeline_of(p.material, p.geometry->0, p.op, uses_stencil),
    )
}

/// Law: where the pipeline of an event's shapes is not bound anew, the one that
/// is bound is the one that the shapes need, with the same offsets.
pub proof fn lemma_unbound_shapes_fit(
    p: PassModel,
    g: GpuModel,
    info: InfoModel,
    uses_stencil: bool,
)
    requires
        in_step(p, g, uses_stencil),
        info.shape is Some,
        !p.must_bind(info, uses_stencil),
    ensures
        g.shapes == Some(info.pipeline(uses_stencil)),
        p.offsets == info.dynamic_offsets,
{
}

proof fn lemma_shape_part(
    p: PassModel,
    g: GpuModel,
    infos: Seq<InfoModel>,
    event: usize,
    uses_stencil: bool,
)
    requires
        in_step(p, g, uses_stencil),
        event < infos.len(),
    ensures
        g.serves_all(
            p.shape_part(infos[event as int], event, uses_stencil).0,
            infos,
            uses_stencil,
        ),
        in_step(
            p.shape_part(infos[event as int], event, uses_stencil).1,
            g.after_all(p.shape_part(infos[event as int], event, uses_stencil).0),
            uses_stencil,
        ),
{
    let info = infos[event as int];
    if info.shape is Some {
        let shape = info.shape->0;
        let binds = p.must_bind(info, uses_stencil);
        let set = PassCommand::SetReference(info.stencil.reference);
        let reference: Seq<PassCommand> = if uses_stencil {
            seq![set]
        } else {
            seq![]
        };
        let bind = PassCommand::BindShapes { event, pipeline: info.pipeline(uses_stencil) };
        let head: Seq<PassCommand> = if binds {
            seq![bind]
        } else {
            seq![]
        };
        let draws = pass::index_draws(event, shape.base_vertex, shape.segments);
        let g1 = g.after_all(head);
        if binds {
            lemma_one(g, bind, infos, uses_stencil);
        } else {
            lemma_unbound_shapes_fit(p, g, info, uses_stencil);
        }
        assert(g1.shapes == Some(info.pipeline(uses_stencil)));
        assert(g.serves_all(head, infos, uses_stencil));
        let g2 = g1.after_all(reference);
        if uses_stencil {
            lemma_one(g1, set, infos, uses_stencil);
        }
        assert(g1.serves_all(reference, infos, uses_stencil));
        lemma_concat(g, head, reference, infos, uses_stencil);
        lemma_concat(g, head + reference, draws, infos, uses_stencil);
        lemma_index_draws(g2, event, shape.base_vertex, shape.segments, infos, uses_stencil);
        let drawn = head + reference + draws;
        assert(g.serves_all(drawn, infos, uses_stencil));
        assert(g.after_all(drawn) == g2);
        if shape.instances.len() > 0 {
            let bind2 = PassCommand::BindInstances { op: info.stencil.op };
            lemma_one(g2, bind2, infos, uses_stencil);
            let g3 = g2.after(bind2);
            let g4 = g3.after_all(reference);
            if uses_stencil {
                lemma_one(g3, set, infos, uses_stencil);
            }
            assert(g3.serves_all(reference, infos, uses_stencil));
            let draws2 = pass::instance_draws(event, shape.instances);
            lemma_instance_draws(g4, event, shape.instances, infos, uses_stencil);
            lemma_concat(g, drawn, seq![bind2], infos, uses_stencil);
            lemma_concat(g, drawn + seq![bind2], reference, infos, uses_stencil);
            lemma_concat(g, drawn + seq![bind2] + reference, draws2, infos, uses_stencil);
        }
    }
}

proof fn lemma_text_part(
    p: PassModel,
    g: GpuModel,
    infos: Seq<InfoModel>,
    event: usize,
    uses_stencil: bool,
)
    requires
        in_step(p, g, uses_stencil),
        event < infos.len(),
    ensures
        g.serves_all(
            p.text_part(infos[event as int], event, uses_stencil).0,
            infos,
            uses_stencil,
        ),
        in_step(
            p.text_part(infos[event as int], event, uses_stencil).1,
            g.after_all(p.text_part(infos[event as int], event, uses_stencil).0),
            uses_stencil,
        ),
{
    let info = infos[event as int];
    if info.text.len() > 0 {
        let mode = info.text_mode(uses_stencil);
        let head: Seq<PassCommand> = if p.text_mode != Some(mode) {
            seq![PassCommand::SetTextMode(mode)]
        } else {
            seq![]
        };
        let reference = if uses_stencil {
            Some(info.text_reference() as u32)
        } else {
            None
        };
        let draws = pass::text_draws(event, info.text, reference);
        lemma_quiet(g, head, infos, uses_stencil);
        lemma_concat(g, head, draws, infos, uses_stencil);
        lemma_text_draws(g, event, info.text, reference, infos, uses_stencil);
    }
}

/// Law: in every pass, each draw of shapes or instances finds the pipeline that
/// its event needs bound and, where there is a stencil buffer, its event's
/// reference set since that pipeline was bound.
pub proof fn lemma_pass_serves_draws(
    infos: Seq<InfoModel>,
    n: int,
    uses_stencil: bool,
    width: u32,
    height: u32,
)
    requires
        0 <= n <= infos.len(),
        infos.len() <= usize::MAX,
    ensures
        GpuModel::start().serves_all(
            pass::pass_of(infos.take(n), uses_stencil, width, height).0,
            infos,
            uses_stencil,
        ),
        in_step(
            pass::pass_of(infos.take(n), uses_stencil, width, height).1,
            GpuModel::start().after_all(
                pass::pass_of(infos.take(n), uses_stencil, width, height).0,
            ),
            uses_stencil,
        ),
    decreases n,
{
    if n > 0 {
        lemma_pass_serves_draws(infos, n - 1, uses_stencil, width, height);
        assert(infos.take(n).drop_last() =~= infos.take(n - 1));
        let before = pass::pass_of(infos.take(n - 1), uses_stencil, width, height);
        let event = (n - 1) as usize;
        let info = infos[n - 1];
        assert(infos.take(n).last() == info);
        let g = GpuModel::start();
        let g0 = g.after_all(before.0);
        let a = before.1.scissor_part(info, width, height);
        lemma_quiet(g0, a.0, infos, uses_stencil);
        let b = a.1.shape_part(info, event, uses_stencil);
        lemma_shape_part(a.1, g0, infos, event, uses_stencil);
        let g1 = g0.after_all(b.0);
        let c = b.1.text_part(info, event, uses_stencil);
        lemma_text_part(b.1, g1, infos, event, uses_stencil);
        lemma_concat(g0, a.0, b.0, infos, uses_stencil);
        lemma_concat(g0, a.0 + b.0, c.0, infos, uses_stencil);
        lemma_concat(g, before.0, a.0 + b.0 + c.0, infos, uses_stencil);
    }
}

} // verus!
