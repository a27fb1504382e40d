//! How pipelines are made: shaders, stencil states and colour targets, and a
//! cache of the pipelines there are.

use crate::fxmap::{fx_get, fx_insert};
use crate::pipeline;
use crate::pipeline::{
    least, material_format_key, pack_builtin_key, MaterialTarget, ShapeVertexLayout,
};
use crate::shader;
use crate::shader::{
    default_geo_instance_vertex_wgsl, default_sdf_instance_vertex_wgsl, default_shape_vertex_wgsl,
    material_fragment_source, offset_naga_error,
};
use crate::text;
use crate::text::count_line_feeds;
use rustc_hash::FxHashMap;
use vstd::prelude::*;
use vstd::string::*;

verus! {

// ---------------------------------------------------------------------------
// Stencil states
// ---------------------------------------------------------------------------

/// What becomes of the stencil buffer where the stencil test passes.
#[derive(Clone, Copy, Debug, PartialEq, Eq, Structural)]
pub enum StencilPass {
    Keep,
    Increment,
    Decrement,
}

/// A stencil test and what it does. Where it fails, the buffer is kept.
#[derive(Clone, Copy, Debug, PartialEq, Eq, Structural)]
pub struct StencilPlan {
    /// Whether the buffer has to equal the reference; else the test passes.
    pub equal: bool,
    pub pass: StencilPass,
    pub read_mask: u32,
    pub write_mask: u32,
}

/// How meshes and materials use the stencil buffer: 0 not at all, 1 and 4 raise
/// it, 2 tests it, anything else lowers it.
pub open spec fn mesh_stencil(op: u32) -> StencilPlan {
    if op == 0 {
        StencilPlan { equal: false, pass: StencilPass::Keep, read_mask: 0, write_mask: 0 }
    } else {
        StencilPlan {
            equal: true,
            pass: if op == 1 || op == 4 {
                StencilPass::Increment
            } else if op == 2 {
                StencilPass::Keep
            } else {
                StencilPass::Decrement
            },
            read_mask: 0xff,
            write_mask: 0xff,
        }
    }
}

/// How instances use the stencil buffer: 1 raises it, 2 tests it, anything
/// else lets everything pass.
pub open spec fn instance_stencil(op: u32) -> StencilPlan {
    StencilPlan {
        equal: op == 1 || op == 2,
        pass: if op == 1 {
            StencilPass::Increment
        } else {
            StencilPass::Keep
        },
        read_mask: if op == 0 {
            0
        } else {
            0xff
        },
        write_mask: if op == 1 {
            0xff
        } else {
            0
        },
    }
}

fn plan_mesh_stencil(op: u32) -> (r: StencilPlan)
    ensures
        r == mesh_stencil(op),
{
    match op {
        0 => StencilPlan { equal: false, pass: StencilPass::Keep, read_mask: 0, write_mask: 0 },
        1 | 4 => StencilPlan {
            equal: true,
            pass: StencilPass::Increment,
            read_mask: 0xff,
            write_mask: 0xff,
        },
        2 => StencilPlan {
            equal: true,
            pass: StencilPass::Keep,
            read_mask: 0xff,
            write_mask: 0xff,
        },
        _ => StencilPlan {
            equal: true,
            pass: StencilPass::Decrement,
            read_mask: 0xff,
            write_mask: 0xff,
        },
    }
}

fn plan_instance_stencil(op: u32) -> (r: StencilPlan)
    ensures
        r == instance_stencil(op),
{
    let read_mask: u32 = if op == 0 {
        0
    } else {
        0xff
    };
    match op {
        1 => StencilPlan { equal: true, pass: StencilPass::Increment, read_mask, write_mask: 0xff },
        2 => StencilPlan { equal: true, pass: StencilPass::Keep, read_mask, write_mask: 0 },
        _ => StencilPlan { equal: false, pass: StencilPass::Keep, read_mask, write_mask: 0 },
    }
}

// ---------------------------------------------------------------------------
// Built-in pipelines
// ---------------------------------------------------------------------------

/// The shaders of built-in pipelines.
#[derive(Clone, Copy, Debug, PartialEq, Eq, Structural)]
pub enum ShaderModule {
    Plain,
    Ssaa,
    Geometry,
    Instance,
    InstanceSsaa,
    GeoInstance,
}

/// How a built-in pipeline is made.
#[derive(Clone, Copy, Debug, PartialEq, Eq, Structural)]
pub struct PipelinePlan {
    pub key: u32,
    pub module: ShaderModule,
    pub layout: ShapeVertexLayout,
    /// The stencil state; without one there is no depth-stencil attachment.
    pub stencil: Option<StencilPlan>,
    /// Whether colours are blended into the target.
    pub writes_color: bool,
    pub sample_count: u32,
    pub alpha_to_coverage: bool,
}

/// The shaders of a mesh: those without distance shapes if it has none.
pub open spec fn mesh_module(ssaa: bool, geometry: bool) -> ShaderModule {
    if geometry {
        ShaderModule::Geometry
    } else if ssaa {
        ShaderModule::Ssaa
    } else {
        ShaderModule::Plain
    }
}

/// The pipeline of meshes without stencil buffer.
pub fn plan_pipeline(
    sample_count: u32,
    alpha_to_coverage: bool,
    ssaa: bool,
    geometry: bool,
    format_bits: u32,
) -> (r: PipelinePlan)
    ensures
        r == (PipelinePlan {
            key: pipeline::builtin_key(
                sample_count,
                format_bits,
                alpha_to_coverage,
                ssaa,
                geometry,
                false,
                0,
                0,
            ),
            module: mesh_module(ssaa, geometry),
            layout: ShapeVertexLayout::Mesh,
            stencil: None,
            writes_color: true,
            sample_count,
            alpha_to_coverage,
        }),
{
    PipelinePlan {
        key: pack_builtin_key(
            sample_count,
            format_bits,
            alpha_to_coverage,
            ssaa,
            geometry,
            false,
            0,
            0,
        ),
        module: choose_mesh_module(ssaa, geometry),
        layout: ShapeVertexLayout::Mesh,
        stencil: None,
        writes_color: true,
        sample_count,
        alpha_to_coverage,
    }
}

fn choose_mesh_module(ssaa: bool, geometry: bool) -> (r: ShaderModule)
    ensures
        r == mesh_module(ssaa, geometry),
{
    if geometry {
        ShaderModule::Geometry
    } else if ssaa {
        ShaderModule::Ssaa
    } else {
        ShaderModule::Plain
    }
}

/// The pipeline of meshes with a stencil buffer. Ops above 4 count as 4; 3 and
/// 4 touch the stencil buffer only.
pub fn plan_stencil_pipeline(
    sample_count: u32,
    alpha_to_coverage: bool,
    ssaa: bool,
    geometry: bool,
    stencil_op: u32,
    format_bits: u32,
) -> (r: PipelinePlan)
    ensures
        r == (PipelinePlan {
            key: pipeline::builtin_key(
                sample_count,
                format_bits,
                alpha_to_coverage,
                ssaa,
                geometry,
                true,
                pipeline::spec_least(stencil_op, 4),
                0,
            ),
            module: mesh_module(ssaa, geometry),
            layout: ShapeVertexLayout::Mesh,
            stencil: Some(mesh_stencil(pipeline::spec_least(stencil_op, 4))),
            writes_color: stencil_op < 3,
            sample_count,
            alpha_to_coverage,
        }),
{
    let op = least(stencil_op, 4);
    PipelinePlan {
        key: pack_builtin_key(
            sample_count,
            format_bits,
            alpha_to_coverage,
            ssaa,
            geometry,
            true,
            op,
            0,
        ),
        module: choose_mesh_module(ssaa, geometry),
        layout: ShapeVertexLayout::Mesh,
        stencil: Some(plan_mesh_stencil(op)),
        writes_color: !(op == 3 || op == 4),
        sample_count,
        alpha_to_coverage,
    }
}

/// The pipeline of instances of the given kind. Ops above 2 count as 2.
pub open spec fn instances_plan(
    sample_count: u32,
    alpha_to_coverage: bool,
    ssaa: bool,
    use_stencil: bool,
    stencil_op: u32,
    format_bits: u32,
    geometry: bool,
) -> PipelinePlan {
    let op = pipeline::spec_least(stencil_op, 2);
    PipelinePlan {
        key: pipeline::builtin_key(
            sample_count,
            format_bits,
            alpha_to_coverage,
            ssaa,
            false,
            use_stencil,
            op,
            if geometry {
                2
            } else {
                1
            },
        ),
        module: if geometry {
            ShaderModule::GeoInstance
        } else if ssaa {
            ShaderModule::InstanceSsaa
        } else {
            ShaderModule::Instance
        },
        layout: if geometry {
            ShapeVertexLayout::GeoInstance
        } else {
            ShapeVertexLayout::SdfInstance
        },
        stencil: if use_stencil {
            Some(instance_stencil(op))
        } else {
            None
        },
        writes_color: true,
        sample_count,
        alpha_to_coverage,
    }
}

/// The pipeline of instanced distance shapes.
pub fn plan_instance_pipeline(
    sample_count: u32,
    alpha_to_coverage: bool,
    ssaa: bool,
    use_stencil: bool,
    stencil_op: u32,
    format_bits: u32,
) -> (r: PipelinePlan)
    ensures
        r == instances_plan(
            sample_count,
            alpha_to_coverage,
            ssaa,
            use_stencil,
            stencil_op,
            format_bits,
            false,
        ),
{
    let op = least(stencil_op, 2);
    PipelinePlan {
        key: pack_builtin_key(
            sample_count,
            format_bits,
            alpha_to_coverage,
            ssaa,
            false,
            use_stencil,
            op,
            1,
        ),
        module: if ssaa {
            ShaderModule::InstanceSsaa
        } else {
            ShaderModule::Instance
        },
        layout: ShapeVertexLayout::SdfInstance,
        stencil: if use_stencil {
            Some(plan_instance_stencil(op))
        } else {
            None
        },
        writes_color: true,
        sample_count,
        alpha_to_coverage,
    }
}

/// The pipeline of instanced meshes.
pub fn plan_geo_instance_pipeline(
    sample_count: u32,
    alpha_to_coverage: bool,
    ssaa: bool,
    use_stencil: bool,
    stencil_op: u32,
    format_bits: u32,
) -> (r: PipelinePlan)
    ensures
        r == instances_plan(
            sample_count,
            alpha_to_coverage,
            ssaa,
            use_stencil,
            stencil_op,
            format_bits,
            true,
        ),
{
    let op = least(stencil_op, 2);
    PipelinePlan {
        key: pack_builtin_key(
            sample_count,
            format_bits,
            alpha_to_coverage,
            ssaa,
            false,
            use_stencil,
            op,
            2,
        ),
        module: ShaderModule::GeoInstance,
        layout: ShapeVertexLayout::GeoInstance,
        stencil: if use_stencil {
            Some(plan_instance_stencil(op))
        } else {
            None
        },
        writes_color: true,
        sample_count,
        alpha_to_coverage,
    }
}

// ---------------------------------------------------------------------------
// Materials
// ---------------------------------------------------------------------------

/// How a material uses the stencil buffer.
#[derive(Clone, Copy, Debug, PartialEq, Eq, Structural)]
pub enum MaterialStencil {
    /// There is none.
    Absent,
    Shape(StencilPlan),
    /// A text that is drawn where the buffer equals its reference.
    TextTest,
    /// A text that is drawn everywhere.
    TextPass,
}

/// How a material uses the stencil buffer with the given op.
pub open spec fn material_stencil(
    target: MaterialTarget,
    stencil_mode: bool,
    stencil_op: u32,
) -> MaterialStencil {
    if !stencil_mode {
        MaterialStencil::Absent
    } else if target == MaterialTarget::Shape {
        MaterialStencil::Shape(mesh_stencil(stencil_op))
    } else if stencil_op == 2 {
        MaterialStencil::TextTest
    } else {
        MaterialStencil::TextPass
    }
}

/// Whether a material's shaders run once per sample: only on shapes, with the
/// vertex stage that comes with them.
pub open spec fn material_ssaa(ssaa: bool, target: MaterialTarget, custom_vertex: bool) -> bool {
    ssaa && target == MaterialTarget::Shape && !custom_vertex
}

/// The built-in vertex stages.
pub struct VertexStages {
    /// That of meshes, with supersampling.
    pub mesh: String,
    /// That of instanced distance shapes, with supersampling.
    pub sdf_instance: String,
    /// That of instanced meshes, without supersampling.
    pub geo_instance: String,
}

impl VertexStages {
    /// The vertex stage of a layout.
    pub open spec fn stage(self, layout: ShapeVertexLayout, ssaa: bool) -> Seq<char> {
        match layout {
            ShapeVertexLayout::Mesh => if ssaa {
                self.mesh@
            } else {
                shader::per_pixel(self.mesh@)
            },
            ShapeVertexLayout::SdfInstance => if ssaa {
                self.sdf_instance@
            } else {
                shader::per_pixel(self.sdf_instance@)
            },
            ShapeVertexLayout::GeoInstance => if ssaa {
                shader::per_sample_position(self.geo_instance@)
            } else {
                self.geo_instance@
            },
        }
    }

    fn choose_stage(&self, layout: ShapeVertexLayout, ssaa: bool) -> (r: String)
        ensures
            r@ == self.stage(layout, ssaa),
    {
        match layout {
            ShapeVertexLayout::Mesh => default_shape_vertex_wgsl(self.mesh.as_str(), ssaa),
            ShapeVertexLayout::SdfInstance => default_sdf_instance_vertex_wgsl(
                self.sdf_instance.as_str(),
                ssaa,
            ),
            ShapeVertexLayout::GeoInstance => default_geo_instance_vertex_wgsl(
                self.geo_instance.as_str(),
                ssaa,
            ),
        }
    }
}

/// How a pipeline of a material is made.
pub struct MaterialPlan {
    pub target: MaterialTarget,
    /// The vertex stage of shapes. Texts have their own.
    pub vertex: Option<String>,
    pub fragment: String,
    pub stencil: MaterialStencil,
    /// Whether colours are written.
    pub writes_color: bool,
    pub layout: ShapeVertexLayout,
    pub sample_count: u32,
    pub alpha_to_coverage: bool,
    /// The line on which the material's own code starts.
    pub user_start: u32,
    /// How many lines it has.
    pub user_len: u32,
}

/// The name of a layout in messages.
pub open spec fn layout_name(layout: ShapeVertexLayout) -> Seq<char> {
    match layout {
        ShapeVertexLayout::Mesh => "Mesh"@,
        ShapeVertexLayout::SdfInstance => "SdfInstance"@,
        ShapeVertexLayout::GeoInstance => "GeoInstance"@,
    }
}

/// Why a vertex stage of the material's own cannot be used with a layout.
pub open spec fn vertex_refusal(layout: ShapeVertexLayout) -> Seq<char> {
    "material: custom vertex shader is not supported with "@ + layout_name(layout)
        + " layout; use a fragment-only material or fall back to mesh"@
}

/// The pipeline of a material. A vertex stage of the material's own is used for
/// meshes, and refused for instances.
pub fn plan_material_pipeline(
    source: &str,
    shape_vertex_source: Option<&str>,
    stages: &VertexStages,
    target: MaterialTarget,
    sample_count: u32,
    alpha_to_coverage: bool,
    ssaa: bool,
    stencil_mode: bool,
    stencil_op: u32,
    shape_layout: ShapeVertexLayout,
) -> (r: Result<MaterialPlan, String>)
    ensures
        r is Err <==> target == MaterialTarget::Shape && shape_layout != ShapeVertexLayout::Mesh
            && shape_vertex_source is Some,
        r matches Err(message) ==> message@ == vertex_refusal(shape_layout),
        r matches Ok(plan) ==> {
            let per_sample = material_ssaa(ssaa, target, shape_vertex_source is Some);
            &&& plan.target == target
            &&& plan.fragment@ == shader::preamble(target, per_sample) + source@ + "\n"@
                + shader::entry_point(target)
            &&& plan.user_start == shader::user_line(target, per_sample) as u32
            &&& plan.user_len == (text::line_feeds(source@) + 1) as u32
            &&& plan.stencil == material_stencil(target, stencil_mode, stencil_op)
            &&& plan.writes_color == !(target == MaterialTarget::Shape && (stencil_op == 3
                || stencil_op == 4))
            &&& plan.layout == shape_layout
            &&& plan.sample_count == sample_count
            &&& plan.alpha_to_coverage == alpha_to_coverage
            &&& plan.vertex is Some <==> target == MaterialTarget::Shape
            &&& plan.vertex matches Some(vertex) ==> vertex@ == (match shape_vertex_source {
                Some(own) => own@,
                None => stages.stage(shape_layout, per_sample),
            })
        },
{
    let shape = matches!(target, MaterialTarget::Shape);
    let per_sample = ssaa && shape && shape_vertex_source.is_none();
    let (fragment, user_start) = material_fragment_source(source, target, per_sample);
    let user_len: u32 = (count_line_feeds(source) as u128 + 1) as u32;
    let stencil = if !stencil_mode {
        MaterialStencil::Absent
    } else if !shape {
        if stencil_op == 2 {
            MaterialStencil::TextTest
        } else {
            MaterialStencil::TextPass
        }
    } else {
        MaterialStencil::Shape(plan_mesh_stencil(stencil_op))
    };
    let vertex = match target {
        MaterialTarget::Text => None,
        MaterialTarget::Shape => match shape_vertex_source {
            None => Some(stages.choose_stage(shape_layout, per_sample)),
            Some(own) => {
                if let ShapeVertexLayout::Mesh = shape_layout {
                    Some(String::from_str(own))
                } else {
                    return Err(refuse_vertex(shape_layout));
                }
            },
        },
    };
    Ok(
        MaterialPlan {
            target,
            vertex,
            fragment,
            stencil,
            writes_color: !(shape && (stencil_op == 3 || stencil_op == 4)),
            layout: shape_layout,
            sample_count,
            alpha_to_coverage,
            user_start,
            user_len,
        },
    )
}

fn refuse_vertex(layout: ShapeVertexLayout) -> (r: String)
    ensures
        r@ == vertex_refusal(layout),
{
    let mut r = String::from_str("material: custom vertex shader is not supported with ");
    match layout {
        ShapeVertexLayout::Mesh => r.append("Mesh"),
        ShapeVertexLayout::SdfInstance => r.append("SdfInstance"),
        ShapeVertexLayout::GeoInstance => r.append("GeoInstance"),
    }
    r.append(" layout; use a fragment-only material or fall back to mesh");
    r
}

/// The name of a target in messages.
pub open spec fn target_name(target: MaterialTarget) -> Seq<char> {
    match target {
        MaterialTarget::Shape => "Shape"@,
        MaterialTarget::Text => "Text"@,
    }
}

impl MaterialPlan {
    /// What is said of a pipeline that the device refused with `message`.
    pub fn refusal(&self, message: &str) -> (r: String)
        requires
            self.user_start + self.user_len <= u32::MAX,
            self.user_start > 0 || self.user_len > 0,
        ensures
            r@ == "material "@ + target_name(self.target) + " pipeline error: "@ + shader::relocated(
                shader::all_rewritten(
                    text::lines_from(message@, 0),
                    self.user_start as int,
                    self.user_len as int,
                ),
                self.user_start as int,
                self.user_len as int,
            ),
    {
        let adjusted = offset_naga_error(message, self.user_start, self.user_len);
        let mut r = String::from_str("material ");
        match self.target {
            MaterialTarget::Shape => r.append("Shape"),
            MaterialTarget::Text => r.append("Text"),
        }
        r.append(" pipeline error: ");
        r.append(adjusted.as_str());
        r
    }
}

/// The key of the pipeline that a material is drawn with.
pub fn material_pipeline_request(
    custom_vertex: bool,
    target: MaterialTarget,
    sample_count: u32,
    alpha_to_coverage: bool,
    ssaa: bool,
    stencil_mode: bool,
    stencil_op: u32,
    shape_layout: ShapeVertexLayout,
    format_bits: u32,
) -> (r: (u64, bool))
    ensures
        r.1 == material_ssaa(ssaa, target, custom_vertex),
        r.0 == pipeline::material_key(
            target,
            sample_count,
            alpha_to_coverage,
            r.1,
            stencil_mode,
            stencil_op,
            shape_layout,
            format_bits,
        ),
{
    let per_sample = ssaa && matches!(target, MaterialTarget::Shape) && !custom_vertex;
    (
        material_format_key(
            target,
            sample_count,
            alpha_to_coverage,
            per_sample,
            stencil_mode,
            stencil_op,
            shape_layout,
            format_bits,
        ),
        per_sample,
    )
}

// ---------------------------------------------------------------------------
// The cache
// ---------------------------------------------------------------------------

/// Where a pipeline is found.
#[derive(Clone, Copy, Debug, PartialEq, Eq, Structural)]
pub enum PipelineSlot {
    /// It was made before.
    Cached(usize),
    /// It has to be made, and appended to those there are.
    Create(usize),
}

/// The pipelines that were made, by key, each with its place in the order of
/// making.
pub struct PipelineCache {
    slots: FxHashMap<u64, usize>,
    made: usize,
}

impl View for PipelineCache {
    type V = Map<u64, usize>;

    closed spec fn view(&self) -> Map<u64, usize> {
        self.slots@
    }
}

impl PipelineCache {
    /// How many pipelines were made.
    pub closed spec fn made(self) -> usize {
        self.made
    }

    /// Every place is one of a pipeline made, and no two keys share one.
    pub open spec fn wf(self) -> bool {
        &&& forall|k: u64| #[trigger] self@.contains_key(k) ==> self@[k] < self.made()
        &&& forall|a: u64, b: u64|
            #![trigger self@[a], self@[b]]
            self@.contains_key(a) && self@.contains_key(b) && self@[a] == self@[b] ==> a == b
    }

    /// A cache without pipelines.
    pub fn new() -> (r: PipelineCache)
        ensures
            r.wf(),
            r@ == Map::<u64, usize>::empty(),
            r.made() == 0,
    {
        PipelineCache { slots: FxHashMap::default(), made: 0 }
    }

    /// The place of the pipeline of a key, if it was made.
    pub fn find(&self, key: u64) -> (r: Option<usize>)
        ensures
            r == (if self@.contains_key(key) {
                Some(self@[key])
            } else {
                None
            }),
    {
        fx_get(&self.slots, key)
    }

    /// Finds the pipeline of a key, or gives it the next place.
    pub fn ensure(&mut self, key: u64) -> (r: PipelineSlot)
        requires
            old(self).wf(),
            old(self).made() < usize::MAX,
        ensures
            final(self).wf(),
            old(self)@.contains_key(key) ==> r == PipelineSlot::Cached(old(self)@[key])
                && *final(self) == *old(self),
            !old(self)@.contains_key(key) ==> r == PipelineSlot::Create(old(self).made())
                && final(self)@ == old(self)@.insert(key, old(self).made()) && final(self).made()
                == old(self).made() + 1,
    {
        match fx_get(&self.slots, key) {
            Some(slot) => PipelineSlot::Cached(slot),
            None => {
                let slot: usize = self.made;
                fx_insert(&mut self.slots, key, slot);
                self.made = slot + 1;
                assert forall|k: u64| #[trigger] self@.contains_key(k) implies self@[k]
                    < self.made() by {
                    let was = old(self)@;
                    assert(k != key ==> was.contains_key(k) && self@[k] == was[k]);
                }
                assert forall|a: u64, b: u64|
                    #![trigger self@[a], self@[b]]
                    self@.contains_key(a) && self@.contains_key(b) && self@[a]
                        == self@[b] implies a == b by {
                    let was = old(self)@;
                    assert(a != key ==> was.contains_key(a) && self@[a] == was[a]);
                    assert(b != key ==> was.contains_key(b) && self@[b] == was[b]);
                }
                PipelineSlot::Create(slot)
            },
        }
    }

    /// Forgets all pipelines.
    pub fn clear(&mut self)
        ensures
            final(self).wf(),
            final(self)@ == Map::<u64, usize>::empty(),
            final(self).made() == 0,
    {
        self.slots = FxHashMap::default();
        self.made = 0;
    }
}

/// Law: a pipeline that was asked for once is not made again, and keeps its
/// place whatever is asked for in between.
pub proof fn lemma_pipelines_keep_their_place(
    before: PipelineCache,
    after: PipelineCache,
    key: u64,
    other: u64,
)
    requires
        before.wf(),
        before@.contains_key(key),
        after@ == before@ || (!before@.contains_key(other) && after@ == before@.insert(
            other,
            before.made(),
        )),
    ensures
        after@.contains_key(key),
        after@[key] == before@[key],
{
}

} // verus!
