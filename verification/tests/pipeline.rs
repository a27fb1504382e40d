//! Keys of materials with a format, shader text, and errors in it.

use std::hash::{DefaultHasher, Hash, Hasher};
use vireo::pipeline::{
    folded_format_bits, material_pipeline_key, surface_format_bits, MaterialTarget,
    ShapeVertexLayout,
};
use vireo::pipeline_plan::{
    material_pipeline_request, plan_material_pipeline, MaterialStencil, PipelineCache, PipelineSlot,
    StencilPass, VertexStages,
};
use vireo::shader::{
    default_geo_instance_vertex_wgsl, default_sdf_instance_vertex_wgsl, default_shape_vertex_wgsl,
    material_fragment_source, offset_naga_error,
};
use wgpu::TextureFormat;

#[test]
fn pipeline_target_pipeline_keys_are_distinct() {
    let shape = material_pipeline_key(MaterialTarget::Shape, 4, false, false, false, 0, ShapeVertexLayout::Mesh, TextureFormat::Rgba8UnormSrgb);
    let text = material_pipeline_key(MaterialTarget::Text, 4, false, false, false, 0, ShapeVertexLayout::Mesh, TextureFormat::Rgba8UnormSrgb);
    assert_ne!(shape, text);
}

#[test]
fn pipeline_material_stencil_key_ignores_unused_flags() {
    assert_eq!(
        material_pipeline_key(MaterialTarget::Shape, 4, true, false, true, 2, ShapeVertexLayout::Mesh, TextureFormat::Rgba8UnormSrgb),
        material_pipeline_key(MaterialTarget::Shape, 4, true, false, true, 2, ShapeVertexLayout::Mesh, TextureFormat::Rgba8UnormSrgb)
    );
    assert_ne!(
        material_pipeline_key(MaterialTarget::Shape, 4, false, false, true, 1, ShapeVertexLayout::Mesh, TextureFormat::Rgba8UnormSrgb),
        material_pipeline_key(MaterialTarget::Shape, 4, false, false, true, 2, ShapeVertexLayout::Mesh, TextureFormat::Rgba8UnormSrgb)
    );
    assert_ne!(
        material_pipeline_key(MaterialTarget::Shape, 1, false, false, true, 1, ShapeVertexLayout::Mesh, TextureFormat::Rgba8UnormSrgb),
        material_pipeline_key(MaterialTarget::Shape, 4, false, false, true, 1, ShapeVertexLayout::Mesh, TextureFormat::Rgba8UnormSrgb)
    );
    assert_ne!(
        material_pipeline_key(MaterialTarget::Shape, 4, false, false, true, 1, ShapeVertexLayout::Mesh, TextureFormat::Rgba8UnormSrgb),
        material_pipeline_key(MaterialTarget::Text, 4, false, false, true, 1, ShapeVertexLayout::Mesh, TextureFormat::Rgba8UnormSrgb)
    );
}

#[test]
fn pipeline_material_shape_ssaa_pipeline_key_is_distinct() {
    assert_ne!(
        material_pipeline_key(MaterialTarget::Shape, 4, false, false, false, 0, ShapeVertexLayout::Mesh, TextureFormat::Rgba8UnormSrgb),
        material_pipeline_key(MaterialTarget::Shape, 4, false, true, false, 0, ShapeVertexLayout::Mesh, TextureFormat::Rgba8UnormSrgb),
    );
    assert_eq!(
        material_pipeline_key(MaterialTarget::Text, 4, false, false, false, 0, ShapeVertexLayout::Mesh, TextureFormat::Rgba8UnormSrgb),
        material_pipeline_key(MaterialTarget::Text, 4, false, true, false, 0, ShapeVertexLayout::Mesh, TextureFormat::Rgba8UnormSrgb),
    );
}

#[test]
fn material_shape_layout_pipeline_keys_are_distinct() {
    let mesh = material_pipeline_key(MaterialTarget::Shape, 1, false, false, false, 0, ShapeVertexLayout::Mesh, TextureFormat::Rgba8UnormSrgb);
    let sdf = material_pipeline_key(MaterialTarget::Shape, 1, false, false, false, 0, ShapeVertexLayout::SdfInstance, TextureFormat::Rgba8UnormSrgb);
    let geo = material_pipeline_key(MaterialTarget::Shape, 1, false, false, false, 0, ShapeVertexLayout::GeoInstance, TextureFormat::Rgba8UnormSrgb);
    assert_ne!(mesh, sdf);
    assert_ne!(mesh, geo);
    assert_ne!(sdf, geo);
    assert_eq!(
        material_pipeline_key(MaterialTarget::Text, 1, false, false, false, 0, ShapeVertexLayout::Mesh, TextureFormat::Rgba8UnormSrgb),
        material_pipeline_key(MaterialTarget::Text, 1, false, false, false, 0, ShapeVertexLayout::SdfInstance, TextureFormat::Rgba8UnormSrgb),
    );
}

#[test]
fn material_pipeline_key_no_overlap_sample_and_layout() {
    let mesh4 = material_pipeline_key(MaterialTarget::Shape, 4, false, false, false, 0, ShapeVertexLayout::Mesh, TextureFormat::Rgba8UnormSrgb);
    let sdf1 = material_pipeline_key(MaterialTarget::Shape, 1, false, false, false, 0, ShapeVertexLayout::SdfInstance, TextureFormat::Rgba8UnormSrgb);
    assert_ne!(mesh4, sdf1);
    let geo8 = material_pipeline_key(MaterialTarget::Shape, 8, false, false, false, 0, ShapeVertexLayout::GeoInstance, TextureFormat::Rgba8UnormSrgb);
    let mesh1 = material_pipeline_key(MaterialTarget::Shape, 1, false, false, false, 0, ShapeVertexLayout::Mesh, TextureFormat::Rgba8UnormSrgb);
    assert_ne!(geo8, mesh1);
}

#[test]
fn pipeline_default_material_shape_vertex_preserves_sample_interpolation_for_ssaa() {
    let source = "struct A {\n    @interpolate(linear, sample) local_pos: vec2<f32>,\n};";
    assert!(default_shape_vertex_wgsl(source, true).contains("@interpolate(linear, sample)"));
    assert!(!default_shape_vertex_wgsl(source, false).contains("@interpolate(linear, sample)"));
}

#[test]
fn material_pipeline_key_distinguishes_surface_format() {
    let rgba = material_pipeline_key(
        MaterialTarget::Shape, 1, false, false, false, 0,
        ShapeVertexLayout::Mesh, TextureFormat::Rgba8UnormSrgb,
    );
    let bgra = material_pipeline_key(
        MaterialTarget::Shape, 1, false, false, false, 0,
        ShapeVertexLayout::Mesh, TextureFormat::Bgra8UnormSrgb,
    );
    assert_ne!(rgba, bgra);
    assert_eq!(rgba, rgba);
}

#[test]
fn pipeline_material_shape_fragment_matches_ssaa_interpolation() {
    let shader = "fn material_main(in: MaterialInput) -> vec4<f32> { return in.color; }";
    assert!(material_fragment_source(shader, MaterialTarget::Shape, true).0
        .contains("@interpolate(linear, sample) local_pos"));
    assert!(!material_fragment_source(shader, MaterialTarget::Shape, false).0
        .contains("@interpolate(linear, sample) local_pos"));
}

#[test]
fn pipeline_material_helpers_exist_for_both_targets() {
    let shader = "fn material_main(in: MaterialInput) -> vec4<f32> { return vireo_base_color(in); }";
    let shape = material_fragment_source(shader, MaterialTarget::Shape, false).0;
    let text = material_fragment_source(shader, MaterialTarget::Text, false).0;
    for src in [shape, text] {
        assert!(src.contains("fn vireo_base_sample(uv: vec2<f32>) -> vec4<f32>"));
        assert!(src.contains("fn vireo_base_color(in: MaterialInput) -> vec4<f32>"));
        assert!(src.contains("fn vireo_has_base_sample() -> bool"));
        assert!(src.contains("fn vireo_has_local_pos() -> bool"));
        assert!(src.contains("fn vireo_has_sdf_data() -> bool"));
    }
}

#[test]
fn format_bits_are_the_lowest_of_the_hash() {
    for format in [TextureFormat::Rgba8UnormSrgb, TextureFormat::Bgra8Unorm, TextureFormat::R8Unorm] {
        let mut hasher = DefaultHasher::new();
        format.hash(&mut hasher);
        let bits = surface_format_bits(format);
        assert_eq!(bits as u64, hasher.finish() % 4096);
        assert_eq!(bits, surface_format_bits(format));
    }
}

#[test]
fn format_bits_fit_in_twelve() {
    assert!(surface_format_bits(TextureFormat::Rgba8UnormSrgb) < 4096);
    assert_ne!(
        surface_format_bits(TextureFormat::Rgba8UnormSrgb),
        surface_format_bits(TextureFormat::Bgra8UnormSrgb)
    );
    assert_eq!(folded_format_bits(0xabcd_1234_5678_9abc), 0xabc);
}

#[test]
fn own_code_starts_on_the_line_given() {
    for target in [MaterialTarget::Shape, MaterialTarget::Text] {
        for ssaa in [false, true] {
            let (source, line) = material_fragment_source("// the own code\n// goes on", target, ssaa);
            let lines: Vec<&str> = source.lines().collect();
            assert_eq!(lines[line as usize - 1], "// the own code");
            assert_eq!(lines[line as usize], "// goes on");
        }
    }
}

#[test]
fn instance_stages_follow_supersampling() {
    let sdf = "@interpolate(linear, sample) a, @interpolate(linear, sample) b";
    assert_eq!(default_sdf_instance_vertex_wgsl(sdf, true), sdf);
    assert_eq!(
        default_sdf_instance_vertex_wgsl(sdf, false),
        "@interpolate(linear) a, @interpolate(linear) b"
    );
    let geo = "@interpolate(linear) local_pos, @interpolate(linear) other";
    assert_eq!(default_geo_instance_vertex_wgsl(geo, false), geo);
    assert_eq!(
        default_geo_instance_vertex_wgsl(geo, true),
        "@interpolate(linear, sample) local_pos, @interpolate(linear) other"
    );
}

#[test]
fn errors_name_own_lines() {
    let message = "error: bad\r\n  ┌─ shader.wgsl:42:18\n 42 │\n  +7 │\n 60│\nx │\n9 │ y\n  44 │ let z = │;";
    assert_eq!(
        offset_naga_error(message, 40, 10),
        "error: bad\n  ┌─ shader.wgsl:3:18\n   3 │\n   7 │\n  11 │\nx │\n   9 │ y\n   5 │ let z = │;\n"
    );
    assert_eq!(offset_naga_error("  42 │ var x: f32;", 40, 5).trim_start(), "3 │ var x: f32;\n");
    assert_eq!(offset_naga_error("   │ ^^^ here", 40, 5), "   │ ^^^ here\n");
}

#[test]
fn errors_without_lines_stay() {
    assert_eq!(offset_naga_error("", 1, 1), "");
    assert_eq!(offset_naga_error("shader.wgsl:no number", 1, 1), "shader.wgsl:no number\n");
    assert_eq!(offset_naga_error("shader.wgsl:x:1", 1, 1), "shader.wgsl:x:1\n");
    assert_eq!(offset_naga_error("shader.wgsl:99999999999:1", 1, 1), "shader.wgsl:99999999999:1\n");
}

fn stages() -> VertexStages {
    VertexStages {
        mesh: "mesh @interpolate(linear, sample)".to_string(),
        sdf_instance: "sdf @interpolate(linear, sample)".to_string(),
        geo_instance: "geo @interpolate(linear) local_pos".to_string(),
    }
}

#[test]
fn material_plan_of_a_shape() {
    let plan = plan_material_pipeline(
        "one\ntwo", None, &stages(), MaterialTarget::Shape, 4, true, true, true, 4,
        ShapeVertexLayout::GeoInstance,
    ).ok().unwrap();
    assert_eq!(plan.vertex.as_deref(), Some("geo @interpolate(linear, sample) local_pos"));
    assert!(plan.fragment.contains("one\ntwo\n"));
    assert_eq!(plan.user_len, 2);
    assert!(!plan.writes_color);
    assert!(matches!(plan.stencil, MaterialStencil::Shape(s) if s.pass == StencilPass::Increment));
}

#[test]
fn material_plan_with_own_vertex_stage() {
    let plan = plan_material_pipeline(
        "x", Some("own"), &stages(), MaterialTarget::Shape, 1, false, true, false, 0,
        ShapeVertexLayout::Mesh,
    ).ok().unwrap();
    assert_eq!(plan.vertex.as_deref(), Some("own"));
    assert!(!plan.fragment.contains("@interpolate(linear, sample)"));
    assert_eq!(plan.stencil, MaterialStencil::Absent);
    let refused = plan_material_pipeline(
        "x", Some("own"), &stages(), MaterialTarget::Shape, 1, false, true, false, 0,
        ShapeVertexLayout::SdfInstance,
    );
    assert_eq!(
        refused.err().unwrap(),
        "material: custom vertex shader is not supported with SdfInstance layout; use a fragment-only material or fall back to mesh"
    );
}

#[test]
fn material_plan_of_a_text() {
    let plan = plan_material_pipeline(
        "x", Some("own"), &stages(), MaterialTarget::Text, 1, false, false, true, 2,
        ShapeVertexLayout::SdfInstance,
    ).ok().unwrap();
    assert_eq!(plan.vertex, None);
    assert_eq!(plan.stencil, MaterialStencil::TextTest);
    let start = plan.user_start;
    let message = format!("shader.wgsl:{}:1", start);
    assert_eq!(plan.refusal(&message), "material Text pipeline error: shader.wgsl:1:1\n");
    let passing = plan_material_pipeline(
        "x", None, &stages(), MaterialTarget::Text, 1, false, false, true, 1,
        ShapeVertexLayout::Mesh,
    ).ok().unwrap();
    assert_eq!(passing.stencil, MaterialStencil::TextPass);
}

#[test]
fn own_vertex_stage_runs_once_per_pixel() {
    let (key, ssaa) = material_pipeline_request(
        true, MaterialTarget::Shape, 4, false, true, false, 0, ShapeVertexLayout::Mesh, 5,
    );
    assert!(!ssaa);
    assert_eq!(key, (4 << 4) | (5 << 20));
    let (key, ssaa) = material_pipeline_request(
        false, MaterialTarget::Shape, 4, false, true, false, 0, ShapeVertexLayout::SdfInstance, 5,
    );
    assert!(ssaa);
    assert_eq!(key, (4 << 4) | (1 << 8) | (1 << 14) | (5 << 20));
}

#[test]
fn cache_gives_places_in_order() {
    let mut cache = PipelineCache::new();
    assert_eq!(cache.ensure(70), PipelineSlot::Create(0));
    assert_eq!(cache.ensure(3), PipelineSlot::Create(1));
    assert_eq!(cache.ensure(70), PipelineSlot::Cached(0));
    cache.clear();
    assert_eq!(cache.ensure(3), PipelineSlot::Create(0));
}
