//! What windows and textures share: sample counts and pipelines.

use crate::pipeline;
use crate::pipeline::{material_format_key, MaterialTarget, ShapeVertexLayout};
use crate::pipeline_plan;
use crate::pipeline_plan::{
    plan_geo_instance_pipeline, plan_instance_pipeline, plan_pipeline, plan_stencil_pipeline,
    PipelineCache, PipelinePlan, PipelineSlot,
};
use vstd::prelude::*;

verus! {

/// The key of a material's pipeline for meshes, whatever the format.
pub fn material_pipeline_key(
    target: MaterialTarget,
    sample_count: u32,
    alpha_to_coverage: bool,
    ssaa: bool,
    stencil_mode: bool,
    stencil_op: u32,
) -> (r: u64)
    ensures
        r == pipeline::material_key(
            target,
            sample_count,
            alpha_to_coverage,
            ssaa,
            stencil_mode,
            stencil_op,
            ShapeVertexLayout::Mesh,
            0,
        ),
{
    material_format_key(
        target,
        sample_count,
        alpha_to_coverage,
        ssaa,
        stencil_mode,
        stencil_op,
        ShapeVertexLayout::Mesh,
        0,
    )
}

// ---------------------------------------------------------------------------
// Sample counts
// ---------------------------------------------------------------------------

/// Whether every device can use a sample count.
pub open spec fn is_guaranteed(count: u32) -> bool {
    count == 1 || count == 4
}

/// The sample counts that pipelines can be made with: all that the adapter
/// knows if the device lets them be used, else those that every device has.
pub open spec fn usable_counts(adapter_counts: Seq<u32>, device_uses_all: bool) -> Seq<u32> {
    let guaranteed = adapter_counts.filter(|c: u32| is_guaranteed(c));
    if device_uses_all {
        adapter_counts
    } else if guaranteed.len() > 0 {
        guaranteed
    } else {
        seq![1]
    }
}

/// The sample counts that pipelines can be made with.
pub fn usable_sample_counts(adapter_counts: Vec<u32>, device_uses_all: bool) -> (r: Vec<u32>)
    ensures
        r@ == usable_counts(adapter_counts@, device_uses_all),
{
    if device_uses_all {
        return adapter_counts;
    }
    let ghost keep = |c: u32| is_guaranteed(c);
    let mut r: Vec<u32> = Vec::new();
    let mut i: usize = 0;
    assert(adapter_counts@.take(0) =~= seq![]);
    while i < adapter_counts.len()
        invariant
            i <= adapter_counts.len(),
            keep == (|c: u32| is_guaranteed(c)),
            r@ == adapter_counts@.take(i as int).filter(keep),
        decreases adapter_counts.len() - i,
    {
        let count: u32 = adapter_counts[i];
        proof {
            let next = adapter_counts@.take(i + 1);
            assert(next.drop_last() =~= adapter_counts@.take(i as int));
            assert(next.last() == count);
            reveal(Seq::filter);
        }
        if count == 1 || count == 4 {
            r.push(count);
        }
        i = i + 1;
    }
    assert(adapter_counts@.take(i as int) =~= adapter_counts@);
    if r.len() == 0 {
        r.push(1);
        assert(r@ =~= seq![1u32]);
    }
    r
}

/// Whether a usable sample count serves a request. A request for none is one
/// for 1.
pub open spec fn serves(supported: Seq<u32>, count: u32, requested: u32) -> bool {
    supported.contains(count) && (count <= requested || count <= 1)
}

/// What windows and textures share.
pub struct GpuContext {
    /// The sample counts that pipelines can be made with, in ascending order.
    pub supported_sample_counts: Vec<u32>,
    /// Twelve bits that stand for the format of the targets.
    pub format_bits: u32,
    /// The built-in pipelines.
    pub pipelines: PipelineCache,
}

impl GpuContext {
    /// The cache is in order.
    pub open spec fn wf(self) -> bool {
        self.pipelines.wf()
    }

    /// A context with one pipeline: that of plain meshes with one sample.
    pub fn new(adapter_counts: Vec<u32>, device_uses_all: bool, format_bits: u32) -> (r: GpuContext)
        ensures
            r.wf(),
            r.format_bits == format_bits,
            r.supported_sample_counts@ == usable_counts(adapter_counts@, device_uses_all),
            r.pipelines@ == Map::<u64, usize>::empty().insert(
                pipeline::builtin_key(1, format_bits, false, false, false, false, 0, 0) as u64,
                0usize,
            ),
            r.pipelines.made() == 1,
    {
        let mut pipelines = PipelineCache::new();
        let plan = plan_pipeline(1, false, false, false, format_bits);
        let _ = pipelines.ensure(plan.key as u64);
        GpuContext {
            supported_sample_counts: usable_sample_counts(adapter_counts, device_uses_all),
            format_bits,
            pipelines,
        }
    }

    /// The sample counts that pipelines can be made with, in ascending order.
    pub fn supported_sample_counts(&self) -> (r: &Vec<u32>)
        ensures
            r@ == self.supported_sample_counts@,
    {
        &self.supported_sample_counts
    }

    /// The largest usable sample count, which is the last; 1 if there is none.
    pub fn max_sample_count(&self) -> (r: u32)
        ensures
            r == (if self.supported_sample_counts@.len() > 0 {
                self.supported_sample_counts@.last()
            } else {
                1
            }),
    {
        let supported = &self.supported_sample_counts;
        if supported.len() > 0 {
            supported[supported.len() - 1]
        } else {
            1
        }
    }

    /// The largest usable sample count that is not above the requested one; 1
    /// if there is none.
    pub fn clamp_sample_count(&self, requested: u32) -> (r: u32)
        ensures
            (exists|c: u32| serves(self.supported_sample_counts@, c, requested)) ==> serves(
                self.supported_sample_counts@,
                r,
                requested,
            ) && forall|c: u32| #[trigger]
                serves(self.supported_sample_counts@, c, requested) ==> c <= r,
            !(exists|c: u32| serves(self.supported_sample_counts@, c, requested)) ==> r == 1,
    {
        let supported = &self.supported_sample_counts;
        let limit: u32 = if requested < 1 {
            1
        } else {
            requested
        };
        let mut best: Option<u32> = None;
        let mut i: usize = 0;
        while i < supported.len()
            invariant
                i <= supported.len(),
                limit == (if requested < 1 {
                    1
                } else {
                    requested
                }),
                best is None ==> forall|k: int| 0 <= k < i ==> #[trigger] supported@[k] > limit,
                best matches Some(b) ==> b <= limit && supported@.contains(b) && forall|k: int|
                    0 <= k < i ==> #[trigger] supported@[k] <= b || supported@[k] > limit,
            decreases supported.len() - i,
        {
            let count: u32 = supported[i];
            if count <= limit {
                best = match best {
                    None => Some(count),
                    Some(b) => if count > b {
                        Some(count)
                    } else {
                        Some(b)
                    },
                };
            }
            i = i + 1;
        }
        match best {
            None => {
                assert forall|c: u32| !serves(supported@, c, requested) by {
                    if serves(supported@, c, requested) {
                        let k = choose|k: int| 0 <= k < supported@.len() && supported@[k] == c;
                        assert(supported@[k] > limit);
                    }
                }
                1
            },
            Some(b) => {
                assert(serves(supported@, b, requested));
                assert forall|c: u32| #[trigger] serves(supported@, c, requested) implies c <= b by {
                    let k = choose|k: int| 0 <= k < supported@.len() && supported@[k] == c;
                    assert(supported@[k] <= b || supported@[k] > limit);
                }
                b
            },
        }
    }

    fn find(&mut self, plan: PipelinePlan) -> (r: (PipelineSlot, PipelinePlan))
        requires
            old(self).wf(),
            old(self).pipelines.made() < usize::MAX,
        ensures
            r.1 == plan,
            old(self).finds(r, *final(self)),
    {
        let slot = self.pipelines.ensure(plan.key as u64);
        (slot, plan)
    }

    /// What asking for a pipeline gives: the place of the one made before with
    /// the same key, or the next place. Nothing else changes.
    pub open spec fn finds(self, r: (PipelineSlot, PipelinePlan), after: GpuContext) -> bool {
        let key = r.1.key as u64;
        &&& after.wf()
        &&& after.supported_sample_counts == self.supported_sample_counts
        &&& after.format_bits == self.format_bits
        &&& self.pipelines@.contains_key(key) ==> r.0 == PipelineSlot::Cached(self.pipelines@[key])
            && after.pipelines == self.pipelines
        &&& !self.pipelines@.contains_key(key) ==> r.0 == PipelineSlot::Create(
            self.pipelines.made(),
        ) && after.pipelines@ == self.pipelines@.insert(key, self.pipelines.made())
            && after.pipelines.made() == self.pipelines.made() + 1
    }

    /// The pipeline of meshes without stencil buffer.
    pub fn ensure_pipeline(
        &mut self,
        sample_count: u32,
        alpha_to_coverage: bool,
        ssaa: bool,
        geometry: bool,
    ) -> (r: (PipelineSlot, PipelinePlan))
        requires
            old(self).wf(),
            old(self).pipelines.made() < usize::MAX,
        ensures
            old(self).finds(r, *final(self)),
            r.1 == (PipelinePlan {
                key: pipeline::builtin_key(
                    sample_count,
                    old(self).format_bits,
                    alpha_to_coverage,
                    ssaa,
                    geometry,
                    false,
                    0,
                    0,
                ),
                module: pipeline_plan::mesh_module(ssaa, geometry),
                layout: ShapeVertexLayout::Mesh,
                stencil: None,
                writes_color: true,
                sample_count,
                alpha_to_coverage,
            }),
    {
        let plan = plan_pipeline(
            sample_count,
            alpha_to_coverage,
            ssaa,
            geometry,
            self.format_bits,
        );
        self.find(plan)
    }

    /// The pipeline of meshes with a stencil buffer.
    pub fn ensure_stencil_pipeline(
        &mut self,
        sample_count: u32,
        alpha_to_coverage: bool,
        ssaa: bool,
        geometry: bool,
        stencil_op: u32,
    ) -> (r: (PipelineSlot, PipelinePlan))
        requires
            old(self).wf(),
            old(self).pipelines.made() < usize::MAX,
        ensures
            old(self).finds(r, *final(self)),
            r.1 == (PipelinePlan {
                key: pipeline::builtin_key(
                    sample_count,
                    old(self).format_bits,
                    alpha_to_coverage,
                    ssaa,
                    geometry,
                    true,
                    pipeline::spec_least(stencil_op, 4),
                    0,
                ),
                module: pipeline_plan::mesh_module(ssaa, geometry),
                layout: ShapeVertexLayout::Mesh,
                stencil: Some(
                    pipeline_plan::mesh_stencil(pipeline::spec_least(stencil_op, 4)),
                ),
                writes_color: stencil_op < 3,
                sample_count,
                alpha_to_coverage,
            }),
    {
        let plan = plan_stencil_pipeline(
            sample_count,
            alpha_to_coverage,
            ssaa,
            geometry,
            stencil_op,
            self.format_bits,
        );
        self.find(plan)
    }

    /// The pipeline of instanced distance shapes.
    pub fn ensure_instance_pipeline(
        &mut self,
        sample_count: u32,
        alpha_to_coverage: bool,
        ssaa: bool,
        use_stencil: bool,
        stencil_op: u32,
    ) -> (r: (PipelineSlot, PipelinePlan))
        requires
            old(self).wf(),
            old(self).pipelines.made() < usize::MAX,
        ensures
            old(self).finds(r, *final(self)),
            r.1 == pipeline_plan::instances_plan(
                sample_count,
                alpha_to_coverage,
                ssaa,
                use_stencil,
                stencil_op,
                old(self).format_bits,
                false,
            ),
    {
        let plan = plan_instance_pipeline(
            sample_count,
            alpha_to_coverage,
            ssaa,
            use_stencil,
            stencil_op,
            self.format_bits,
        );
        self.find(plan)
    }

    /// The pipeline of instanced meshes.
    pub fn ensure_geo_instance_pipeline(
        &mut self,
        sample_count: u32,
        alpha_to_coverage: bool,
        ssaa: bool,
        use_stencil: bool,
        stencil_op: u32,
    ) -> (r: (PipelineSlot, PipelinePlan))
        requires
            old(self).wf(),
            old(self).pipelines.made() < usize::MAX,
        ensures
            old(self).finds(r, *final(self)),
            r.1 == pipeline_plan::instances_plan(
                sample_count,
                alpha_to_coverage,
                ssaa,
                use_stencil,
                stencil_op,
                old(self).format_bits,
                true,
            ),
    {
        let plan = plan_geo_instance_pipeline(
            sample_count,
            alpha_to_coverage,
            ssaa,
            use_stencil,
            stencil_op,
            self.format_bits,
        );
        self.find(plan)
    }
}

/// Law: a new context already has the pipeline of plain meshes with one
/// sample.
pub proof fn lemma_plain_pipeline_is_there(context: GpuContext, bits: u32)
    requires
        context.pipelines@ == Map::<u64, usize>::empty().insert(
            pipeline::builtin_key(1, bits, false, false, false, false, 0, 0) as u64,
            0usize,
        ),
        context.format_bits == bits,
    ensures
        forall|r: (PipelineSlot, PipelinePlan), after: GpuContext|
            #![trigger context.finds(r, after)]
            context.finds(r, after) && r.1.key == pipeline::builtin_key(
                1,
                bits,
                false,
                false,
                false,
                false,
                0,
                0,
            ) ==> r.0 == PipelineSlot::Cached(0),
{
}

} // verus!
