//! Keys of pipelines, the pipelines made, and sample counts.

use vireo::gpu;
use vireo::gpu::GpuContext;
use vireo::pipeline::{MaterialTarget, ShapeVertexLayout, VIREO_TARGET_SHAPE, VIREO_TARGET_TEXT};
use vireo::pipeline_plan::{PipelineSlot, ShaderModule, StencilPass};
use vireo::shader;

#[test]
fn gpu_target_pipeline_keys_are_distinct() {
    let shape = gpu::material_pipeline_key(MaterialTarget::Shape, 4, false, false, false, 0);
    let text = gpu::material_pipeline_key(MaterialTarget::Text, 4, false, false, false, 0);
    assert_ne!(shape, text);
}

#[test]
fn gpu_material_stencil_key_ignores_unused_flags() {
    assert_eq!(
        gpu::material_pipeline_key(MaterialTarget::Shape, 4, true, false, true, 2),
        gpu::material_pipeline_key(MaterialTarget::Shape, 4, true, false, true, 2)
    );
    assert_ne!(
        gpu::material_pipeline_key(MaterialTarget::Shape, 4, false, false, true, 1),
        gpu::material_pipeline_key(MaterialTarget::Shape, 4, false, false, true, 2)
    );
    assert_ne!(
        gpu::material_pipeline_key(MaterialTarget::Shape, 1, false, false, true, 1),
        gpu::material_pipeline_key(MaterialTarget::Shape, 4, false, false, true, 1)
    );
    assert_ne!(
        gpu::material_pipeline_key(MaterialTarget::Shape, 4, false, false, true, 1),
        gpu::material_pipeline_key(MaterialTarget::Text, 4, false, false, true, 1)
    );
}

#[test]
fn gpu_material_shape_ssaa_pipeline_key_is_distinct() {
    assert_ne!(
        gpu::material_pipeline_key(MaterialTarget::Shape, 4, false, false, false, 0),
        gpu::material_pipeline_key(MaterialTarget::Shape, 4, false, true, false, 0),
    );
    assert_eq!(
        gpu::material_pipeline_key(MaterialTarget::Text, 4, false, false, false, 0),
        gpu::material_pipeline_key(MaterialTarget::Text, 4, false, true, false, 0),
    );
}

#[test]
fn material_target_constants_match_rust() {
    assert_eq!(VIREO_TARGET_SHAPE, 0);
    assert_eq!(VIREO_TARGET_TEXT, 1);
}

#[test]
fn material_input_exposes_base_uv() {
    assert!(shader::MATERIAL_INPUT_WGSL.contains("base_uv: vec2<f32>"));
    assert!(shader::MATERIAL_INPUT_WGSL.contains("const VIREO_TARGET_SHAPE: u32 = 0u;"));
    assert!(shader::MATERIAL_INPUT_WGSL.contains("const VIREO_TARGET_TEXT: u32 = 1u;"));
}

#[test]
fn gpu_default_material_shape_vertex_preserves_sample_interpolation_for_ssaa() {
    let source = "@location(3) @interpolate(linear, sample) local_pos: vec2<f32>,";
    assert!(shader::default_shape_vertex_wgsl(source, true).contains("@interpolate(linear, sample)"));
    assert!(!shader::default_shape_vertex_wgsl(source, false).contains("@interpolate(linear, sample)"));
}

#[test]
fn gpu_material_shape_fragment_matches_ssaa_interpolation() {
    let source = "fn material_main(in: MaterialInput) -> vec4<f32> { return in.color; }";
    assert!(shader::material_fragment_source(source, MaterialTarget::Shape, true).0
        .contains("@interpolate(linear, sample) local_pos"));
    assert!(!shader::material_fragment_source(source, MaterialTarget::Shape, false).0
        .contains("@interpolate(linear, sample) local_pos"));
}

#[test]
fn gpu_material_helpers_exist_for_both_targets() {
    let source = "fn material_main(in: MaterialInput) -> vec4<f32> { return vireo_base_color(in); }";
    let shape = shader::material_fragment_source(source, MaterialTarget::Shape, false).0;
    let text = shader::material_fragment_source(source, MaterialTarget::Text, false).0;
    for src in [shape, text] {
        assert!(src.contains("fn vireo_base_sample(uv: vec2<f32>) -> vec4<f32>"));
        assert!(src.contains("fn vireo_base_color(in: MaterialInput) -> vec4<f32>"));
        assert!(src.contains("fn vireo_has_base_sample() -> bool"));
        assert!(src.contains("fn vireo_has_local_pos() -> bool"));
        assert!(src.contains("fn vireo_has_sdf_data() -> bool"));
    }
}

#[test]
fn material_key_has_each_field_in_its_bits() {
    assert_eq!(
        gpu::material_pipeline_key(MaterialTarget::Text, 4, true, true, true, 9),
        1 | (4 << 4) | (1 << 12) | (1 << 13) | (4 << 16)
    );
    assert_eq!(
        gpu::material_pipeline_key(MaterialTarget::Shape, 8, false, true, false, 3),
        (8 << 4) | (1 << 14) | (3 << 16)
    );
}

#[test]
fn new_context_has_the_plain_pipeline() {
    let mut context = GpuContext::new(vec![1, 4], true, 0);
    let (slot, plan) = context.ensure_pipeline(1, false, false, false);
    assert_eq!(slot, PipelineSlot::Cached(0));
    assert_eq!(plan.key, 1);
    assert_eq!(plan.module, ShaderModule::Plain);
    assert_eq!(plan.stencil, None);
}

#[test]
fn pipelines_are_made_once() {
    let mut context = GpuContext::new(vec![1, 4], true, 7);
    let first = context.ensure_pipeline(4, false, true, false);
    assert_eq!(first.0, PipelineSlot::Create(1));
    assert_eq!(first.1.module, ShaderModule::Ssaa);
    let other = context.ensure_stencil_pipeline(4, false, true, true, 2);
    assert_eq!(other.0, PipelineSlot::Create(2));
    assert_eq!(other.1.module, ShaderModule::Geometry);
    assert_eq!(context.ensure_pipeline(4, false, true, false).0, PipelineSlot::Cached(1));
    assert_eq!(context.ensure_stencil_pipeline(4, false, true, true, 2).0, PipelineSlot::Cached(2));
}

#[test]
fn stencil_ops_have_their_states() {
    let mut context = GpuContext::new(vec![1], true, 0);
    let raise = context.ensure_stencil_pipeline(1, false, false, false, 1).1;
    assert_eq!(raise.stencil.unwrap().pass, StencilPass::Increment);
    assert!(raise.writes_color);
    let mask = context.ensure_stencil_pipeline(1, false, false, false, 7).1;
    assert_eq!(mask.stencil.unwrap().pass, StencilPass::Increment);
    assert!(!mask.writes_color);
    let lower = context.ensure_stencil_pipeline(1, false, false, false, 3).1;
    assert_eq!(lower.stencil.unwrap().pass, StencilPass::Decrement);
    assert!(!lower.writes_color);
    let off = context.ensure_stencil_pipeline(1, false, false, false, 0).1;
    assert!(!off.stencil.unwrap().equal);
    assert_eq!(off.stencil.unwrap().write_mask, 0);
}

#[test]
fn instances_have_pipelines_of_their_own() {
    let mut context = GpuContext::new(vec![1], true, 0);
    let sdf = context.ensure_instance_pipeline(1, false, false, true, 9).1;
    assert_eq!(sdf.key, 1 | (1 << 19) | (2 << 20) | (1 << 23));
    assert_eq!(sdf.layout, ShapeVertexLayout::SdfInstance);
    assert_eq!(sdf.stencil.unwrap().write_mask, 0);
    assert_eq!(sdf.stencil.unwrap().read_mask, 0xff);
    let geo = context.ensure_geo_instance_pipeline(1, false, true, false, 0).1;
    assert_eq!(geo.key, 1 | (1 << 17) | (2 << 23));
    assert_eq!(geo.module, ShaderModule::GeoInstance);
    assert_eq!(geo.stencil, None);
}

#[test]
fn sample_counts_are_clamped() {
    let context = GpuContext::new(vec![1, 2, 4, 8], true, 0);
    assert_eq!(context.supported_sample_counts(), &vec![1, 2, 4, 8]);
    assert_eq!(context.max_sample_count(), 8);
    assert_eq!(context.clamp_sample_count(0), 1);
    assert_eq!(context.clamp_sample_count(3), 2);
    assert_eq!(context.clamp_sample_count(16), 8);
}

#[test]
fn sample_counts_without_the_feature() {
    let context = GpuContext::new(vec![1, 2, 4, 8], false, 0);
    assert_eq!(context.supported_sample_counts(), &vec![1, 4]);
    let context = GpuContext::new(vec![2, 8], false, 0);
    assert_eq!(context.supported_sample_counts(), &vec![1]);
    let context = GpuContext::new(vec![], true, 0);
    assert_eq!(context.max_sample_count(), 1);
    assert_eq!(context.clamp_sample_count(4), 1);
}
