//! Glyphs: bounds, search, placement, upload, and the layouts of their
//! pipelines.

use vireo::batch::TextBounds;
use vireo::bindings::{
    camera_bindings, custom_material_bindings, engine_storage_bindings, glyph_atlas_bindings,
    glyph_uniform_bindings, texture_bindings, BindingKind,
};
use vireo::buffers::{grown_capacity, next_copy_buffer_size, next_power_of_two};
use vireo::glyph::{
    custom_image, glyph_bounds, glyph_image, is_run_visible, place_glyph, visible_runs, Bounds,
    ColorMode, ContentType, GlyphAnswer, GlyphBounds, GlyphDetails, GlyphImage, GlyphMetadata,
    GlyphSearch, GlyphToRender, GpuCacheStatus, RunLines, SwashContent,
};
use vireo::pass::TextStencilMode;
use vireo::pipeline_plan::PipelineSlot;
use vireo::text_renderer::{
    glyph_attributes, FoundArea, FoundGlyph, FoundRun, PrepareError, ResolvedGlyph,
    TextPipelineKey, TextPipelines, TextRenderer, Upload,
};
use vireo::upload::{buffer_bytes, glyph_words, instance_words, vertex_words};
use vireo::vertex::{AttributeFormat, ShapeInstance, Vertex};

fn bounds(left: i32, top: i32, right: i32, bottom: i32) -> TextBounds {
    TextBounds { left, top, right, bottom }
}

#[test]
fn bounds_are_cut_to_the_screen() {
    let b = glyph_bounds(bounds(-5, 10, 900, 20), 0, 800, 600);
    assert_eq!(b.x, Bounds { min: 0, max: 800 });
    assert_eq!(b.y, Bounds { min: 10, max: 20 });
    let outside = glyph_bounds(bounds(900, 700, 950, 750), 0, 800, 600);
    assert_eq!(outside.x, Bounds { min: 900, max: 900 });
    let moved = glyph_bounds(bounds(-5, -6, 900, 20), 3, 800, 600);
    assert_eq!(moved.x, Bounds { min: -5, max: 900 });
    assert_eq!(moved.y, Bounds { min: -6, max: 20 });
}

#[test]
fn runs_in_view() {
    let line = |start| RunLines { start, height: 10 };
    assert!(is_run_visible(line(-10), 0, 100));
    assert!(!is_run_visible(line(-11), 0, 100));
    assert!(is_run_visible(line(100), 0, 100));
    let runs: Vec<RunLines> = (-3..20).map(|i| line(i * 10)).collect();
    assert_eq!(visible_runs(&runs, 0, 25), (2, 6));
    assert_eq!(visible_runs(&runs, 1000, 1001), (23, 23));
}

fn image(width: u16, height: u16) -> GlyphImage {
    GlyphImage { content_type: ContentType::Mask, top: 7, left: 2, width, height }
}

fn details(gpu_cache: GpuCacheStatus) -> GlyphDetails {
    GlyphDetails { width: 10, height: 12, gpu_cache, top: 7, left: 2 }
}

#[test]
fn search_asks_both_atlases() {
    let d = details(GpuCacheStatus::SkipRasterization);
    let s = GlyphSearch::new();
    assert_eq!(s.answer(GlyphAnswer::Details(d)), GlyphSearch::Known(ContentType::Mask, d));
    let s = s.answer(GlyphAnswer::Nothing);
    assert_eq!(s, GlyphSearch::AskColor);
    assert_eq!(s.answer(GlyphAnswer::Details(d)), GlyphSearch::Known(ContentType::Color, d));
    let s = s.answer(GlyphAnswer::Nothing);
    assert_eq!(s, GlyphSearch::AskImage);
    assert_eq!(s.answer(GlyphAnswer::Nothing), GlyphSearch::NoGlyph);
    assert_eq!(s.answer(GlyphAnswer::Grown), GlyphSearch::AskImage);
}

#[test]
fn search_finds_space_or_gives_up() {
    let s = GlyphSearch::AskImage.answer(GlyphAnswer::Image(image(3, 4)));
    assert_eq!(s, GlyphSearch::AskSpace(image(3, 4)));
    let s = s.answer(GlyphAnswer::Nothing);
    assert_eq!(s, GlyphSearch::AskGrowth(image(3, 4)));
    assert_eq!(s.answer(GlyphAnswer::Nothing), GlyphSearch::AtlasFull);
    let s = s.answer(GlyphAnswer::Grown).answer(GlyphAnswer::Space(30, 40));
    match s {
        GlyphSearch::Remember(ContentType::Mask, d) => {
            assert_eq!(
                d.gpu_cache,
                GpuCacheStatus::InAtlas { x: 30, y: 40, content_type: ContentType::Mask }
            );
            assert_eq!((d.width, d.height, d.top, d.left), (3, 4, 7, 2));
        }
        _ => panic!("expected a place"),
    }
}

#[test]
fn empty_pictures_are_remembered_without_a_place() {
    let s = GlyphSearch::AskImage.answer(GlyphAnswer::Image(image(0, 4)));
    assert!(matches!(
        s,
        GlyphSearch::Remember(ContentType::Color, d) if d.gpu_cache == GpuCacheStatus::SkipRasterization
    ));
}

#[test]
fn pictures_of_glyphs() {
    assert_eq!(glyph_image(SwashContent::Color, 1, 2, 3, 4).content_type, ContentType::Color);
    assert_eq!(glyph_image(SwashContent::SubpixelMask, -1, -2, 3, 4).content_type, ContentType::Mask);
    assert_eq!(glyph_image(SwashContent::Mask, -1, -2, 3, 4).left, -2);
    assert!(custom_image(0, 4, Some(ContentType::Mask)).is_none());
    assert!(custom_image(4, 4, None).is_none());
    assert_eq!(custom_image(4, 5, Some(ContentType::Color)).unwrap().height, 5);
}

fn pen(x: i32, y: i32) -> GlyphMetadata {
    GlyphMetadata {
        x,
        y,
        line: 7,
        color: 0xff00ff00,
        depth: 0,
        transform_index: 4,
        base_uv_rect: [1, 2, 3, 4],
    }
}

fn in_atlas() -> GlyphDetails {
    details(GpuCacheStatus::InAtlas { x: 100, y: 200, content_type: ContentType::Mask })
}

fn window(x: (i32, i32), y: (i32, i32)) -> GlyphBounds {
    GlyphBounds { x: Bounds { min: x.0, max: x.1 }, y: Bounds { min: y.0, max: y.1 } }
}

#[test]
fn whole_glyphs_are_placed() {
    let g = place_glyph(pen(20, 30), in_atlas(), window((0, 800), (0, 600)), ColorMode::Accurate).unwrap();
    assert_eq!(g.pos, [22, 30]);
    assert_eq!(g.dim, [10, 12]);
    assert_eq!(g.uv, [100, 200]);
    assert_eq!(g.content_type_with_srgb, [1, 1]);
    assert_eq!(g.transform_index, 4);
    assert_eq!(g.base_uv_rect, [1, 2, 3, 4]);
}

#[test]
fn glyphs_are_clipped_on_all_sides() {
    let g = place_glyph(pen(20, 30), in_atlas(), window((25, 30), (33, 40)), ColorMode::Web).unwrap();
    assert_eq!(g.pos, [25, 33]);
    assert_eq!(g.dim, [5, 7]);
    assert_eq!(g.uv, [103, 203]);
    assert_eq!(g.content_type_with_srgb, [1, 0]);
}

#[test]
fn glyphs_outside_are_left_out() {
    let d = in_atlas();
    assert!(place_glyph(pen(20, 30), d, window((0, 21), (0, 600)), ColorMode::Web).is_none());
    assert!(place_glyph(pen(20, 30), d, window((33, 90), (0, 600)), ColorMode::Web).is_none());
    assert!(place_glyph(pen(20, 30), d, window((0, 800), (43, 600)), ColorMode::Web).is_none());
    let none = details(GpuCacheStatus::SkipRasterization);
    assert!(place_glyph(pen(20, 30), none, window((0, 800), (0, 600)), ColorMode::Web).is_none());
    let edge = place_glyph(pen(20, 30), d, window((32, 90), (0, 600)), ColorMode::Web).unwrap();
    assert_eq!(edge.dim[0], 0);
}

fn glyph() -> GlyphToRender {
    place_glyph(pen(20, 30), in_atlas(), window((0, 800), (0, 600)), ColorMode::Web).unwrap()
}

fn at(x: i32) -> FoundGlyph {
    FoundGlyph::Glyph(pen(x, 30), in_atlas())
}

fn run(start: i32, glyphs: Vec<FoundGlyph>) -> FoundRun {
    FoundRun { lines: RunLines { start, height: 10 }, glyphs }
}

fn area(custom: Vec<FoundGlyph>, runs: Vec<FoundRun>) -> FoundArea {
    FoundArea { bounds: bounds(0, 0, 800, 600), transform_index: 0, custom, runs }
}

fn prepare(r: &mut TextRenderer, areas: Vec<FoundArea>) -> Result<Upload, PrepareError> {
    r.prepare_with_depth_and_custom(&areas, 800, 600, ColorMode::Web)
}

fn columns(r: &TextRenderer) -> Vec<i32> {
    r.glyph_vertices.iter().map(|g| g.pos[0] - 2).collect()
}

#[test]
fn texts_are_gathered_in_order() {
    let mut r = TextRenderer::new();
    let hidden = vec![at(1), FoundGlyph::AtlasFull];
    let first = area(
        vec![at(10), FoundGlyph::NoGlyph, at(11)],
        vec![
            run(-50, hidden.clone()),
            run(0, vec![at(20), at(21)]),
            run(20, vec![at(22)]),
            run(900, hidden),
            run(40, vec![at(2)]),
        ],
    );
    let second = area(Vec::new(), vec![run(0, vec![at(30), at(5000)])]);
    assert_eq!(prepare(&mut r, vec![first, second]), Ok(Upload::Write));
    assert_eq!(columns(&r), vec![10, 11, 20, 21, 22, 30]);
}

#[test]
fn full_atlas_ends_the_gathering() {
    let mut r = TextRenderer::new();
    let first = area(vec![at(10)], vec![run(0, vec![at(20), FoundGlyph::AtlasFull, at(21)])]);
    let second = area(vec![at(30)], Vec::new());
    assert_eq!(prepare(&mut r, vec![first, second]), Err(PrepareError::AtlasFull));
    assert_eq!(columns(&r), vec![10, 20]);
    assert_eq!(r.vertex_buffer_size, 4096);
}

#[test]
fn resolved_glyphs_are_gathered_where_visible() {
    let resolved = |start: i32, found: FoundGlyph| ResolvedGlyph {
        bounds: bounds(0, 0, 800, 600),
        transform_index: 0,
        lines: RunLines { start, height: 10 },
        found,
    };
    let mut r = TextRenderer::new();
    let list = vec![
        resolved(0, at(10)),
        resolved(900, FoundGlyph::AtlasFull),
        resolved(0, FoundGlyph::NoGlyph),
        resolved(40, at(11)),
    ];
    assert_eq!(r.prepare_resolved_glyphs(&list, 800, 600, ColorMode::Web), Ok(Upload::Write));
    assert_eq!(columns(&r), vec![10, 11]);
    let list = vec![resolved(0, FoundGlyph::AtlasFull), resolved(0, at(12))];
    assert_eq!(
        r.prepare_resolved_glyphs(&list, 800, 600, ColorMode::Web),
        Err(PrepareError::AtlasFull)
    );
    assert_eq!(columns(&r), vec![10, 11]);
}

#[test]
fn renderer_uploads_at_the_end_of_a_frame() {
    let mut r = TextRenderer::new();
    assert_eq!(r.vertex_buffer_size, 4096);
    let one = area(Vec::new(), vec![run(0, vec![at(20), FoundGlyph::NoGlyph])]);
    assert_eq!(prepare(&mut r, vec![one]), Ok(Upload::Write));
    assert_eq!(r.glyph_vertex_count(), 1);
    r.begin_frame();
    assert_eq!(r.glyph_vertex_count(), 0);
    assert_eq!(r.finish_frame(), Upload::Nothing);
    r.begin_frame();
    assert_eq!(prepare(&mut r, vec![area(vec![at(20); 60], Vec::new())]), Ok(Upload::Nothing));
    assert_eq!(prepare(&mut r, vec![area(vec![at(20); 40], Vec::new())]), Ok(Upload::Nothing));
    assert_eq!(r.finish_frame(), Upload::Replace(8192));
    assert_eq!(r.vertex_buffer_size, 8192);
    assert!(!r.defer_upload);
    r.clear();
    assert_eq!(r.upload(), Upload::Nothing);
}

#[test]
fn ranges_of_glyphs() {
    let r = TextRenderer::new();
    assert!(r.render().is_none());
    assert!(r.render_range(5, 0).is_none());
    let d = r.render_range_with_stencil_ref(5, 2, Some(3)).unwrap();
    assert_eq!(d.byte_offset, 240);
    assert_eq!(d.instances, 2);
    assert_eq!(d.stencil_ref, Some(3));
    assert!(d.own_pipeline && d.own_atlas && !d.binds_material);
    let m = r.render_range_with_material(0, 1, None, true, true, true).unwrap();
    assert!(!m.own_pipeline && !m.own_atlas && m.binds_material);
}

#[test]
fn text_pipelines_are_made_once() {
    let key = |sample_count| TextPipelineKey {
        format: 1,
        sample_count,
        sample_mask: !0,
        alpha_to_coverage: false,
        stencil: TextStencilMode::Off,
    };
    let mut p = TextPipelines::new();
    assert_eq!(p.get_or_create_pipeline(key(1)), PipelineSlot::Create(0));
    assert_eq!(p.get_or_create_pipeline(key(4)), PipelineSlot::Create(1));
    assert_eq!(p.get_or_create_pipeline(key(1)), PipelineSlot::Cached(0));
    let tested = TextPipelineKey { stencil: TextStencilMode::Test, ..key(1) };
    assert_eq!(p.get_or_create_pipeline(tested), PipelineSlot::Create(2));
}

#[test]
fn attributes_fill_their_records() {
    let g = glyph_attributes();
    assert_eq!(g.map(|a| a.offset), [0, 8, 12, 16, 20, 24, 28, 32]);
    assert_eq!(g[0].format, AttributeFormat::Sint32x2);
    assert_eq!(std::mem::size_of::<GlyphToRender>(), 48);
    let v = Vertex::desc();
    assert_eq!(v.map(|a| a.offset), [0, 8, 16, 32, 48, 52, 56, 64]);
    assert_eq!(std::mem::size_of::<Vertex>(), 68);
}

#[test]
fn layouts_number_their_entries() {
    assert_eq!(camera_bindings().len(), 1);
    assert_eq!(texture_bindings()[1].kind, BindingKind::Sampler);
    assert!(engine_storage_bindings()[0].vertex && !engine_storage_bindings()[0].fragment);
    let custom = custom_material_bindings();
    assert_eq!(custom.len(), 9);
    assert_eq!(custom[7].kind, BindingKind::Texture);
    assert_eq!(custom[8].kind, BindingKind::Sampler);
    assert_eq!(glyph_atlas_bindings().iter().map(|b| b.binding).collect::<Vec<u32>>(), vec![0, 1, 2, 3, 4]);
    assert_eq!(glyph_uniform_bindings(16)[0].kind, BindingKind::Uniform { least: Some(16) });
    assert_eq!(glyph_uniform_bindings(0)[0].kind, BindingKind::Uniform { least: None });
}

#[test]
fn buffer_sizes() {
    assert_eq!(next_power_of_two(0), 1);
    assert_eq!(next_power_of_two(5), 8);
    assert_eq!(next_power_of_two(64), 64);
    assert_eq!(next_copy_buffer_size(0), 4);
    assert_eq!(next_copy_buffer_size(3), 4);
    assert_eq!(next_copy_buffer_size(100), 128);
    assert_eq!(grown_capacity(0, 10, 64), Some(64));
    assert_eq!(grown_capacity(64, 64, 64), None);
    assert_eq!(grown_capacity(64, 65, 64), Some(128));
    assert_eq!(grown_capacity(64, 500, 64), Some(500));
}

#[test]
fn records_become_words_and_bytes() {
    let v = Vertex {
        position: [1, 2],
        uv: [3, 4],
        color: [5, 6, 7, 8],
        sdf_params: [9, 10, 11, 12],
        sdf_type: 13,
        sdf_feather: 14,
        sdf_extra: [15, 16],
        transform_index: 17,
    };
    let words = vertex_words(&vec![v, v]);
    assert_eq!(words[0..17], (1..=17).collect::<Vec<u32>>());
    assert_eq!(words[17..34], words[0..17]);
    let bytes = buffer_bytes(&words);
    assert_eq!(bytes.len(), 2 * 68);
    assert_eq!(bytes[4..8], 2u32.to_ne_bytes());

    let s = ShapeInstance {
        bounds: [1, 2, 3, 4],
        uv_bounds: [5, 6, 7, 8],
        uv_rect: [9, 10, 11, 12],
        color: [13, 14, 15, 16],
        sdf_params: [17, 18, 19, 20],
        sdf_extra: [21, 22],
        sdf_type: 23,
        sdf_feather: 24,
        transform_index: 25,
    };
    let mut expected: Vec<u32> = (1..=25).collect();
    expected.push(0);
    assert_eq!(instance_words(&vec![s]), expected);

    let g = GlyphToRender { pos: [-1, 3], ..glyph() };
    let words = glyph_words(&vec![g]);
    assert_eq!(words.len(), 12);
    assert_eq!(words[0], u32::MAX);
    assert_eq!(words[2], 10 | (12 << 16));
    assert_eq!(words[3], 100 | (200 << 16));
    assert_eq!(words[8..12], [1, 2, 3, 4]);
}
