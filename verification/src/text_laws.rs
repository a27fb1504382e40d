//! What holds of every text: where its glyphs stand, what is cut off them, which
//! are drawn, and in what order.

use vstd::prelude::*;
use crate::batch::TextBounds;
use crate::glyph;
use crate::glyph::{
    custom_image, glyph_bounds, glyph_image, is_run_visible, place_glyph, visible_runs, ColorMode,
    ContentType, GlyphAnswer, GlyphBounds, GlyphDetails, GlyphImage, GlyphMetadata,
    GlyphSearch, GlyphToRender, GpuCacheStatus, RunLines, SwashContent,
};
use crate::pipeline_plan::PipelineSlot;
use crate::text_renderer;
use crate::text_renderer::{
    FoundArea, FoundGlyph, FoundRun, PrepareError, RangeDraw, ResolvedGlyph, TextPipelineKey,
    TextPipelines, TextRenderer, Upload,
};

verus! {

// ---------------------------------------------------------------------------
// One glyph
// ---------------------------------------------------------------------------

/// Whether a glyph's picture lies in the bounds, where the pen, the baseline and
/// the glyph's bearings put it.
pub open spec fn lies_inside(m: GlyphMetadata, d: GlyphDetails, b: GlyphBounds) -> bool {
    &&& b.x.min <= m.x + d.left
    &&& m.x + d.left + d.width <= b.x.max
    &&& b.y.min <= m.y + m.line - d.top
    &&& m.y + m.line - d.top + d.height <= b.y.max
}

/// Law: a glyph that nothing is cut off stands on its baseline, its top bearing
/// above it, and its left bearing behind the pen. It is drawn whole, from its
/// place in the atlas, with what it was given.
pub proof fn lemma_glyph_stands_on_baseline(
    m: GlyphMetadata,
    d: GlyphDetails,
    b: GlyphBounds,
    mode: ColorMode,
    r: Option<GlyphToRender>,
)
    requires
        glyph::placeable(m, d, b),
        d.gpu_cache is InAtlas,
        lies_inside(m, d, b),
        call_ensures(place_glyph, (m, d, b, mode), r),
    ensures
        r matches Some(g) && {
            &&& g.pos@[1] + d.top == m.y + m.line
            &&& g.pos@[0] - d.left == m.x
            &&& g.dim@[0] == d.width
            &&& g.dim@[1] == d.height
            &&& d.gpu_cache matches GpuCacheStatus::InAtlas { x, y, .. } && g.uv@[0] == x
                && g.uv@[1] == y
            &&& g.color == m.color
            &&& g.depth == m.depth
            &&& g.transform_index == m.transform_index
            &&& g.base_uv_rect == m.base_uv_rect
        },
{
}

/// Law: of two glyphs that differ in their baseline alone, the one whose baseline
/// is `n` pixels lower is drawn `n` pixels lower, and in the same column; of two
/// that differ in the pen, each is as far from the other as the pens are.
pub proof fn lemma_glyphs_follow_pen_and_baseline(
    m: GlyphMetadata,
    k: GlyphMetadata,
    d: GlyphDetails,
    b: GlyphBounds,
    mode: ColorMode,
    first: GlyphToRender,
    second: GlyphToRender,
)
    requires
        glyph::placeable(m, d, b),
        glyph::placeable(k, d, b),
        lies_inside(m, d, b),
        lies_inside(k, d, b),
        call_ensures(place_glyph, (m, d, b, mode), Some(first)),
        call_ensures(place_glyph, (k, d, b, mode), Some(second)),
    ensures
        second.pos@[1] - first.pos@[1] == (k.y - m.y) + (k.line - m.line),
        second.pos@[0] - first.pos@[0] == k.x - m.x,
        first.dim == second.dim,
        first.uv == second.uv,
{
}

/// Law: whatever is cut off, each pixel that is drawn of a glyph is one of its
/// picture and of the bounds, all those are drawn, and each shows the texel that
/// it shows of the whole glyph.
pub proof fn lemma_cut_glyph_keeps_its_pixels(
    m: GlyphMetadata,
    d: GlyphDetails,
    b: GlyphBounds,
    mode: ColorMode,
    g: GlyphToRender,
    px: int,
    py: int,
)
    requires
        glyph::placeable(m, d, b),
        b.x.min <= b.x.max,
        b.y.min <= b.y.max,
        call_ensures(place_glyph, (m, d, b, mode), Some(g)),
    ensures
        g.pos@[0] <= px < g.pos@[0] + g.dim@[0] <==> m.x + d.left <= px < m.x + d.left + d.width
            && b.x.min <= px < b.x.max,
        g.pos@[1] <= py < g.pos@[1] + g.dim@[1] <==> m.y + m.line - d.top <= py < m.y + m.line
            - d.top + d.height && b.y.min <= py < b.y.max,
        d.gpu_cache matches GpuCacheStatus::InAtlas { x, y, .. } && {
            &&& g.uv@[0] + (px - g.pos@[0]) == x + (px - (m.x + d.left))
            &&& g.uv@[1] + (py - g.pos@[1]) == y + (py - (m.y + m.line - d.top))
        },
{
}

/// Law: a glyph is left out exactly if it has no pixels or none of its pixels'
/// neighbours is in the bounds; one that is left out has no pixel in them.
pub proof fn lemma_left_out_glyph_is_not_seen(
    m: GlyphMetadata,
    d: GlyphDetails,
    b: GlyphBounds,
    mode: ColorMode,
    r: Option<GlyphToRender>,
    px: int,
    py: int,
)
    requires
        glyph::placeable(m, d, b),
        call_ensures(place_glyph, (m, d, b, mode), r),
    ensures
        d.gpu_cache is SkipRasterization ==> r is None,
        r is None && d.gpu_cache is InAtlas ==> !(m.x + d.left <= px < m.x + d.left + d.width
            && b.x.min <= px < b.x.max && m.y + m.line - d.top <= py < m.y + m.line - d.top
            + d.height && b.y.min <= py < b.y.max),
        d.gpu_cache is InAtlas && m.x + d.left <= px < m.x + d.left + d.width && b.x.min <= px
            < b.x.max && m.y + m.line - d.top <= py < m.y + m.line - d.top + d.height && b.y.min
            <= py < b.y.max ==> r is Some,
{
}

/// Law: a glyph says which atlas holds it, and whether its colour is converted;
/// masks and accurate colours have the flag set.
pub proof fn lemma_glyph_names_its_atlas(
    m: GlyphMetadata,
    d: GlyphDetails,
    b: GlyphBounds,
    mode: ColorMode,
    g: GlyphToRender,
)
    requires
        glyph::placeable(m, d, b),
        call_ensures(place_glyph, (m, d, b, mode), Some(g)),
    ensures
        d.gpu_cache matches GpuCacheStatus::InAtlas { content_type, .. } && (
        g.content_type_with_srgb@[0] == 1 <==> content_type == ContentType::Mask) && (
        g.content_type_with_srgb@[0] == 0 <==> content_type == ContentType::Color),
        g.content_type_with_srgb@[1] == 1 <==> mode == ColorMode::Accurate,
        g.content_type_with_srgb@[1] == 0 <==> mode == ColorMode::Web,
{
}

/// Law: a text that is moved later is clipped to its own bounds alone, one that is
/// not also to the screen.
pub proof fn lemma_moved_text_is_not_cut_by_screen(
    bounds: TextBounds,
    transform_index: u32,
    width: u32,
    height: u32,
    r: GlyphBounds,
    p: int,
)
    requires
        width <= i32::MAX,
        height <= i32::MAX,
        call_ensures(glyph_bounds, (bounds, transform_index, width, height), r),
    ensures
        transform_index != 0 ==> r.x.min == bounds.left && r.x.max == bounds.right && r.y.min
            == bounds.top && r.y.max == bounds.bottom,
        transform_index == 0 ==> {
            &&& r.x.min <= p < r.x.max <==> bounds.left <= p < bounds.right && 0 <= p < width
            &&& r.y.min <= p < r.y.max <==> bounds.top <= p < bounds.bottom && 0 <= p < height
            &&& r.x.min <= r.x.max && r.y.min <= r.y.max
        },
{
}

// ---------------------------------------------------------------------------
// Runs
// ---------------------------------------------------------------------------

/// Law: a run is visible exactly if some line of pixels is one of the run, both
/// ends counted, and one of the area, both ends counted.
pub proof fn lemma_visible_run_shares_a_line(run: RunLines, top: i32, bottom: i32, p: int, r: bool)
    requires
        glyph::run_fits(run),
        call_ensures(is_run_visible, (run, top, bottom), r),
    ensures
        top <= p <= bottom && run.start <= p <= run.start + run.height ==> r,
        r && run.height >= 0 && top <= bottom ==> {
            let shared = if run.start >= top {
                run.start
            } else {
                top
            };
            top <= shared <= bottom && run.start <= shared <= run.start + run.height
        },
{
}

/// Law: the runs that are drawn are visible and follow each other; those before
/// are not visible, and neither is the next one.
pub proof fn lemma_drawn_runs_are_visible(
    runs: Vec<RunLines>,
    top: i32,
    bottom: i32,
    r: (usize, usize),
    i: int,
    seen: bool,
)
    requires
        forall|k: int| 0 <= k < runs@.len() ==> glyph::run_fits(#[trigger] runs@[k]),
        call_ensures(visible_runs, (&runs, top, bottom), r),
        0 <= i < runs@.len(),
        call_ensures(is_run_visible, (runs@[i], top, bottom), seen),
    ensures
        i < r.0 ==> !seen,
        r.0 <= i < r.1 ==> seen,
        i == r.1 ==> !seen,
        r.0 <= r.1 <= runs@.len(),
{
}

proof fn lemma_next_run_found(
    runs: Seq<RunLines>,
    i: int,
    visible: bool,
    top: i32,
    bottom: i32,
)
    requires
        0 <= i <= runs.len(),
    ensures
        i <= glyph::next_run(runs, i, visible, top, bottom) <= runs.len(),
        forall|k: int|
            i <= k < glyph::next_run(runs, i, visible, top, bottom) ==> glyph::run_visible(
                #[trigger] runs[k],
                top,
                bottom,
            ) != visible,
        glyph::next_run(runs, i, visible, top, bottom) < runs.len() ==> glyph::run_visible(
            runs[glyph::next_run(runs, i, visible, top, bottom)],
            top,
            bottom,
        ) == visible,
    decreases runs.len() - i,
{
    if i < runs.len() && glyph::run_visible(runs[i], top, bottom) != visible {
        lemma_next_run_found(runs, i + 1, visible, top, bottom);
    }
}

/// Law: the glyphs of runs are those of the first runs, then those of the others,
/// and those of one run are its own, in order.
pub proof fn lemma_runs_follow_each_other(a: Seq<FoundRun>, b: Seq<FoundRun>, run: FoundRun)
    ensures
        text_renderer::run_glyphs(a + b) == text_renderer::run_glyphs(a)
            + text_renderer::run_glyphs(b),
        text_renderer::run_glyphs(seq![run]) == run.glyphs@,
        text_renderer::run_glyphs(Seq::<FoundRun>::empty()).len() == 0,
    decreases b.len(),
{
    let one = seq![run];
    assert(one.drop_last() =~= Seq::<FoundRun>::empty());
    assert(text_renderer::run_glyphs(one.drop_last()) + run.glyphs@ =~= run.glyphs@);
    if b.len() == 0 {
        assert(a + b =~= a);
        assert(text_renderer::run_glyphs(a) + text_renderer::run_glyphs(b)
            =~= text_renderer::run_glyphs(a));
    } else {
        assert((a + b).drop_last() =~= a + b.drop_last());
        assert((a + b).last() == b.last());
        lemma_runs_follow_each_other(a, b.drop_last(), run);
        assert(text_renderer::run_glyphs(a + b) =~= text_renderer::run_glyphs(a)
            + text_renderer::run_glyphs(b));
    }
}

/// Law: a text whose runs are all visible is drawn whole: the glyphs of the
/// application first, then all runs. Of a text without a visible run only the
/// glyphs of the application are drawn.
pub proof fn lemma_visible_text_is_drawn_whole(area: FoundArea)
    ensures
        area.custom@.is_prefix_of(area.glyphs()),
        (forall|i: int|
            0 <= i < area.runs@.len() ==> (#[trigger] area.runs@[i]).lines.start
                <= area.bounds.bottom && area.bounds.top <= area.runs@[i].lines.start
                + area.runs@[i].lines.height) ==> area.glyphs() == area.custom@
            + text_renderer::run_glyphs(area.runs@),
        (forall|i: int|
            0 <= i < area.runs@.len() ==> (#[trigger] area.runs@[i]).lines.start
                > area.bounds.bottom || area.bounds.top > area.runs@[i].lines.start
                + area.runs@[i].lines.height) ==> area.glyphs() == area.custom@,
{
    let lines = text_renderer::lines_of(area.runs@);
    let (top, bottom) = (area.bounds.top, area.bounds.bottom);
    lemma_next_run_found(lines, 0, true, top, bottom);
    let start = glyph::next_run(lines, 0, true, top, bottom);
    lemma_next_run_found(lines, start, false, top, bottom);
    let end = glyph::next_run(lines, start, false, top, bottom);
    assert(lines.len() == area.runs@.len());
    assert(forall|i: int| 0 <= i < lines.len() ==> lines[i] == (#[trigger] area.runs@[i]).lines);
    if forall|i: int|
        0 <= i < area.runs@.len() ==> (#[trigger] area.runs@[i]).lines.start <= bottom && top
            <= area.runs@[i].lines.start + area.runs@[i].lines.height {
        if lines.len() > 0 {
            assert(area.runs@[0].lines == lines[0]);
        }
        assert(start == 0);
        if end < lines.len() {
            assert(area.runs@[end].lines == lines[end]);
        }
        assert(area.runs@.subrange(start, end) =~= area.runs@);
    }
    if forall|i: int|
        0 <= i < area.runs@.len() ==> (#[trigger] area.runs@[i]).lines.start > bottom || top
            > area.runs@[i].lines.start + area.runs@[i].lines.height {
        if start < lines.len() {
            assert(area.runs@[start].lines == lines[start]);
        }
        assert(area.runs@.subrange(start, end) =~= Seq::<FoundRun>::empty());
        assert(area.custom@ + Seq::<FoundGlyph>::empty() =~= area.custom@);
    }
}

// ---------------------------------------------------------------------------
// Gathering
// ---------------------------------------------------------------------------

/// Law: a glyph that was found is gathered as it is placed; one that is not seen,
/// or that does not exist, gives nothing; one without space ends the gathering.
pub proof fn lemma_one_glyph_is_gathered(
    m: GlyphMetadata,
    d: GlyphDetails,
    bounds: GlyphBounds,
    mode: ColorMode,
    g: Option<GlyphToRender>,
)
    requires
        glyph::placeable(m, d, bounds),
        call_ensures(place_glyph, (m, d, bounds, mode), g),
    ensures
        ({
            let r = text_renderer::gathered(seq![FoundGlyph::Glyph(m, d)], bounds, mode);
            &&& r.1
            &&& g matches Some(shown) ==> r.0 == seq![shown]
            &&& g is None ==> r.0.len() == 0
        }),
        text_renderer::gathered(seq![FoundGlyph::NoGlyph], bounds, mode).0.len() == 0,
        text_renderer::gathered(seq![FoundGlyph::NoGlyph], bounds, mode).1,
        text_renderer::gathered(seq![FoundGlyph::AtlasFull], bounds, mode).0.len() == 0,
        !text_renderer::gathered(seq![FoundGlyph::AtlasFull], bounds, mode).1,
        text_renderer::gathered(seq![], bounds, mode).0.len() == 0,
        text_renderer::gathered(seq![], bounds, mode).1,
{
    let none = Seq::<FoundGlyph>::empty();
    assert(text_renderer::gathered(none, bounds, mode).0 =~= seq![]);
    assert(seq![FoundGlyph::Glyph(m, d)].drop_last() =~= none);
    assert(seq![FoundGlyph::NoGlyph].drop_last() =~= none);
    assert(seq![FoundGlyph::AtlasFull].drop_last() =~= none);
    if let Some(shown) = g {
        assert(text_renderer::gathered(seq![FoundGlyph::Glyph(m, d)], bounds, mode).0
            =~= seq![shown]);
    }
}

/// Law: glyphs are gathered in order: those of the first part, then those of the
/// second, unless the atlas was full in the first.
pub proof fn lemma_glyphs_are_gathered_in_order(
    a: Seq<FoundGlyph>,
    b: Seq<FoundGlyph>,
    bounds: GlyphBounds,
    mode: ColorMode,
)
    ensures
        text_renderer::gathered(a, bounds, mode).1 ==> text_renderer::gathered(
            a + b,
            bounds,
            mode,
        ).0 == text_renderer::gathered(a, bounds, mode).0 + text_renderer::gathered(
            b,
            bounds,
            mode,
        ).0,
        text_renderer::gathered(a + b, bounds, mode).1 <==> text_renderer::gathered(
            a,
            bounds,
            mode,
        ).1 && text_renderer::gathered(b, bounds, mode).1,
        !text_renderer::gathered(a, bounds, mode).1 ==> text_renderer::gathered(a + b, bounds, mode)
            == text_renderer::gathered(a, bounds, mode),
    decreases b.len(),
{
    if b.len() == 0 {
        assert(a + b =~= a);
        assert(text_renderer::gathered(a, bounds, mode).0 + seq![] =~= text_renderer::gathered(
            a,
            bounds,
            mode,
        ).0);
    } else {
        assert((a + b).drop_last() =~= a + b.drop_last());
        assert((a + b).last() == b.last());
        lemma_glyphs_are_gathered_in_order(a, b.drop_last(), bounds, mode);
        if text_renderer::gathered(a, bounds, mode).1 {
            assert(text_renderer::gathered(a + b, bounds, mode).0 =~= text_renderer::gathered(
                a,
                bounds,
                mode,
            ).0 + text_renderer::gathered(b, bounds, mode).0);
        }
    }
}

/// Law: texts are gathered one after the other, each clipped to its own bounds,
/// until one finds the atlas full.
pub proof fn lemma_texts_are_gathered_in_order(
    areas: Seq<FoundArea>,
    area: FoundArea,
    width: u32,
    height: u32,
    mode: ColorMode,
    clip: GlyphBounds,
)
    requires
        call_ensures(glyph_bounds, (area.bounds, area.transform_index, width, height), clip),
    ensures
        ({
            let before = text_renderer::all_gathered(areas, width, height, mode);
            let all = text_renderer::all_gathered(areas.push(area), width, height, mode);
            let own = text_renderer::gathered(area.glyphs(), clip, mode);
            &&& before.1 ==> all.0 == before.0 + own.0 && all.1 == own.1
            &&& !before.1 ==> all == before
        }),
        text_renderer::all_gathered(seq![], width, height, mode).0.len() == 0,
        text_renderer::all_gathered(seq![], width, height, mode).1,
{
    assert(areas.push(area).drop_last() =~= areas);
}

/// Law: glyphs whose place is known are gathered one after the other, each clipped
/// to its own bounds, and not where their run is not visible.
pub proof fn lemma_known_glyphs_are_gathered_in_order(
    glyphs: Seq<ResolvedGlyph>,
    one: ResolvedGlyph,
    width: u32,
    height: u32,
    mode: ColorMode,
    clip: GlyphBounds,
    seen: bool,
)
    requires
        glyph::run_fits(one.lines),
        call_ensures(glyph_bounds, (one.bounds, one.transform_index, width, height), clip),
        call_ensures(is_run_visible, (one.lines, one.bounds.top, one.bounds.bottom), seen),
    ensures
        ({
            let before = text_renderer::all_resolved(glyphs, width, height, mode);
            let all = text_renderer::all_resolved(glyphs.push(one), width, height, mode);
            let own = text_renderer::gathered(seq![one.found], clip, mode);
            &&& before.1 && seen ==> all.0 == before.0 + own.0 && all.1 == own.1
            &&& before.1 && !seen ==> all.0 == before.0 && all.1
            &&& !before.1 ==> all == before
        }),
        text_renderer::all_resolved(seq![], width, height, mode).0.len() == 0,
        text_renderer::all_resolved(seq![], width, height, mode).1,
{
    assert(glyphs.push(one).drop_last() =~= glyphs);
    let before = text_renderer::all_resolved(glyphs, width, height, mode);
    assert(before.0 + Seq::<GlyphToRender>::empty() =~= before.0);
}

/// Law: preparing texts keeps the glyphs there were, in front, and adds those of
/// the texts; it fails exactly if the atlas was full. While a frame waits for its
/// end nothing is uploaded.
pub proof fn lemma_prepared_glyphs_come_behind(
    renderer: &mut TextRenderer,
    areas: Vec<FoundArea>,
    width: u32,
    height: u32,
    mode: ColorMode,
    r: Result<Upload, PrepareError>,
)
    requires
        call_ensures(
            TextRenderer::prepare_with_depth_and_custom,
            (renderer, &areas, width, height, mode),
            r,
        ),
    ensures
        old(renderer).glyph_vertices@.is_prefix_of(final(renderer).glyph_vertices@),
        text_renderer::all_gathered(areas@, width, height, mode).0.is_suffix_of(
            final(renderer).glyph_vertices@,
        ),
        final(renderer).glyph_vertices@.len() == old(renderer).glyph_vertices@.len()
            + text_renderer::all_gathered(areas@, width, height, mode).0.len(),
        r is Err <==> !text_renderer::all_gathered(areas@, width, height, mode).1,
        old(renderer).defer_upload && r is Ok ==> r == Ok::<Upload, PrepareError>(Upload::Nothing),
        !old(renderer).defer_upload && r is Ok ==> final(renderer).vertex_buffer_size >= 48
            * final(renderer).glyph_vertices@.len(),
        final(renderer).defer_upload == old(renderer).defer_upload,
{
}

/// Law: preparing glyphs whose place is known does what preparing texts does.
pub proof fn lemma_prepared_known_glyphs_come_behind(
    renderer: &mut TextRenderer,
    glyphs: Vec<ResolvedGlyph>,
    width: u32,
    height: u32,
    mode: ColorMode,
    r: Result<Upload, PrepareError>,
)
    requires
        call_ensures(
            TextRenderer::prepare_resolved_glyphs,
            (renderer, &glyphs, width, height, mode),
            r,
        ),
    ensures
        old(renderer).glyph_vertices@.is_prefix_of(final(renderer).glyph_vertices@),
        text_renderer::all_resolved(glyphs@, width, height, mode).0.is_suffix_of(
            final(renderer).glyph_vertices@,
        ),
        final(renderer).glyph_vertices@.len() == old(renderer).glyph_vertices@.len()
            + text_renderer::all_resolved(glyphs@, width, height, mode).0.len(),
        r is Err <==> !text_renderer::all_resolved(glyphs@, width, height, mode).1,
        old(renderer).defer_upload && r is Ok ==> r == Ok::<Upload, PrepareError>(Upload::Nothing),
        !old(renderer).defer_upload && r is Ok ==> final(renderer).vertex_buffer_size >= 48
            * final(renderer).glyph_vertices@.len(),
        final(renderer).defer_upload == old(renderer).defer_upload,
{
}

/// Law: a frame begins without glyphs and puts uploads off; at its end all glyphs
/// are in the buffer, which is replaced exactly if it is too small and written
/// exactly if there are glyphs.
pub proof fn lemma_frame_uploads_at_its_end(
    renderer: &mut TextRenderer,
    r: Upload,
)
    requires
        text_renderer::glyphs_fit(renderer.glyph_vertices@.len()),
        call_ensures(TextRenderer::finish_frame, (renderer,), r),
    ensures
        final(renderer).glyph_vertices@ == old(renderer).glyph_vertices@,
        final(renderer).vertex_buffer_size >= 48 * final(renderer).glyph_vertices@.len(),
        !final(renderer).defer_upload,
        r == Upload::Nothing <==> old(renderer).glyph_vertices@.len() == 0,
        r is Replace <==> old(renderer).vertex_buffer_size < 48 * old(renderer).glyph_vertices@.len(),
        r matches Upload::Replace(size) ==> size == final(renderer).vertex_buffer_size && size
            % 4 == 0 && size >= 48 * old(renderer).glyph_vertices@.len(),
        !(r is Replace) ==> final(renderer).vertex_buffer_size == old(renderer).vertex_buffer_size,
{
    if r is Replace {
        let size = final(renderer).vertex_buffer_size;
        let required = old(renderer).glyph_vertices@.len() * 48;
        let p = choose|p: nat|
            #[trigger] crate::buffers::is_next_pow2(required as nat, p) && size == if p >= 4 {
                p
            } else {
                4
            };
        crate::buffers::lemma_pow2_from_four(required as nat, p);
    }
}

/// Law: a frame that begins has no glyphs, and waits with its upload.
pub proof fn lemma_frame_begins_empty(renderer: &mut TextRenderer, n: u32)
    requires
        call_ensures(TextRenderer::begin_frame, (renderer,), ()),
    ensures
        call_ensures(TextRenderer::glyph_vertex_count, (&*final(renderer),), n) ==> n == 0,
        final(renderer).defer_upload,
        final(renderer).vertex_buffer_size == old(renderer).vertex_buffer_size,
{
}

/// Law: a cleared renderer has no glyphs, and keeps its buffer.
pub proof fn lemma_cleared_renderer_is_empty(renderer: &mut TextRenderer, n: u32)
    requires
        call_ensures(TextRenderer::clear, (renderer,), ()),
    ensures
        call_ensures(TextRenderer::glyph_vertex_count, (&*final(renderer),), n) ==> n == 0,
        final(renderer).defer_upload == old(renderer).defer_upload,
        final(renderer).vertex_buffer_size == old(renderer).vertex_buffer_size,
{
}

/// Law: a range of glyphs is drawn from the byte where its first glyph lies, with
/// as many instances as there are glyphs, and with what was given for it; an empty
/// one is not drawn. Drawing all glyphs is drawing the range of all.
pub proof fn lemma_range_starts_at_its_first_glyph(
    renderer: TextRenderer,
    start: u32,
    count: u32,
    stencil: Option<u32>,
    atlas: bool,
    pipeline: bool,
    material: bool,
    r: Option<RangeDraw>,
    n: u32,
)
    ensures
        call_ensures(
            TextRenderer::render_range_with_material,
            (&renderer, start, count, stencil, atlas, pipeline, material),
            r,
        ) ==> {
            &&& r is None <==> count == 0
            &&& r matches Some(d) ==> d.byte_offset == 48 * start && d.instances == count
                && d.stencil_ref == stencil && (d.own_atlas <==> !atlas) && (d.own_pipeline
                <==> !pipeline) && (d.binds_material <==> material)
        },
        call_ensures(
            TextRenderer::render_range_with_stencil_ref,
            (&renderer, start, count, stencil),
            r,
        ) ==> {
            &&& r is None <==> count == 0
            &&& r matches Some(d) ==> d.byte_offset == 48 * start && d.instances == count
                && d.stencil_ref == stencil && d.own_atlas && d.own_pipeline && !d.binds_material
        },
        call_ensures(TextRenderer::render_range, (&renderer, start, count), r) ==> {
            &&& r is None <==> count == 0
            &&& r matches Some(d) ==> d.byte_offset == 48 * start && d.instances == count
                && d.stencil_ref is None && d.own_atlas && d.own_pipeline && !d.binds_material
        },
        call_ensures(TextRenderer::render, (&renderer,), r) && call_ensures(
            TextRenderer::glyph_vertex_count,
            (&renderer,),
            n,
        ) ==> {
            &&& r is None <==> n == 0
            &&& r matches Some(d) ==> d.byte_offset == 0 && d.instances == n && d.stencil_ref is None
        },
{
}

/// Law: a pipeline of texts is made once for each key, and is then found in its
/// place.
pub proof fn lemma_text_pipelines_are_made_once(
    pipelines: &mut TextPipelines,
    key: TextPipelineKey,
    r: PipelineSlot,
)
    requires
        pipelines.wf(),
        pipelines.made@.len() < usize::MAX,
        call_ensures(TextPipelines::get_or_create_pipeline, (pipelines, key), r),
    ensures
        final(pipelines).made@.contains(key),
        r matches PipelineSlot::Create(i) ==> !old(pipelines).made@.contains(key) && final(pipelines).made@[i as int] == key && i == old(pipelines).made@.len(),
        r matches PipelineSlot::Cached(i) ==> old(pipelines).made@[i as int] == key && final(pipelines).made@ == old(pipelines).made@,
        old(pipelines).made@.is_prefix_of(final(pipelines).made@),
{
    if !old(pipelines).made@.contains(key) {
        assert(final(pipelines).made@[old(pipelines).made@.len() as int] == key);
    }
}

// ---------------------------------------------------------------------------
// Finding a glyph
// ---------------------------------------------------------------------------

/// Law: a picture keeps its size and its bearings, and only colour pictures go to
/// the colour atlas.
pub proof fn lemma_picture_keeps_its_placement(
    content: SwashContent,
    top: i32,
    left: i32,
    width: u32,
    height: u32,
    r: GlyphImage,
)
    requires
        call_ensures(glyph_image, (content, top, left, width, height), r),
        i16::MIN <= top <= i16::MAX,
        i16::MIN <= left <= i16::MAX,
        width <= u16::MAX,
        height <= u16::MAX,
    ensures
        r.top == top && r.left == left && r.width == width && r.height == height,
        r.content_type == ContentType::Color <==> content == SwashContent::Color,
{
}

/// Law: a custom glyph is drawn exactly if it was given and has pixels; it keeps
/// its size and content and has no bearings.
pub proof fn lemma_custom_picture(
    width: u16,
    height: u16,
    drawn: Option<ContentType>,
    r: Option<GlyphImage>,
)
    requires
        call_ensures(custom_image, (width, height, drawn), r),
    ensures
        r is Some <==> drawn is Some && width != 0 && height != 0,
        r matches Some(i) ==> i.width == width && i.height == height && i.top == 0 && i.left == 0
            && Some(i.content_type) == drawn,
{
}

/// Law: a search asks the mask atlas, then the colour atlas, then for the picture,
/// and stops at the first atlas that knows the glyph, with what it knows. It gives
/// up exactly if there is no picture, or no space and no growth.
pub proof fn lemma_search_goes_on(s: GlyphSearch, a: GlyphAnswer, r: GlyphSearch, first: GlyphSearch)
    requires
        call_ensures(GlyphSearch::answer, (s, a), r),
    ensures
        call_ensures(GlyphSearch::new, (), first) ==> first is AskMask,
        s is AskMask && a is Nothing ==> r is AskColor,
        s is AskColor && a is Nothing ==> r is AskImage,
        s is AskImage && a is Nothing ==> r is NoGlyph,
        s is AskMask ==> (a matches GlyphAnswer::Details(d) ==> r == GlyphSearch::Known(
            ContentType::Mask,
            d,
        )),
        s is AskColor ==> (a matches GlyphAnswer::Details(d) ==> r == GlyphSearch::Known(
            ContentType::Color,
            d,
        )),
        s matches GlyphSearch::AskSpace(image) ==> (a is Nothing ==> r == GlyphSearch::AskGrowth(
            image,
        )),
        s matches GlyphSearch::AskGrowth(image) ==> (a is Grown ==> r == GlyphSearch::AskSpace(
            image,
        )) && (a is Nothing ==> r is AtlasFull),
        r is AtlasFull && !(s is AtlasFull) ==> s is AskGrowth,
        s is Known || s is Remember || s is NoGlyph || s is AtlasFull ==> r == s,
{
}

/// Law: a picture with pixels needs space; what is remembered of it has its size
/// and bearings, and the place that was found for it in the atlas of its content.
/// One without pixels is remembered as such.
pub proof fn lemma_search_remembers_picture(
    image: GlyphImage,
    x: u16,
    y: u16,
    asked: GlyphSearch,
    r: GlyphSearch,
)
    requires
        call_ensures(GlyphSearch::answer, (GlyphSearch::AskImage, GlyphAnswer::Image(image)), asked),
        call_ensures(GlyphSearch::answer, (asked, GlyphAnswer::Space(x, y)), r),
    ensures
        asked == GlyphSearch::AskSpace(image) <==> image.width != 0 && image.height != 0,
        r matches GlyphSearch::Remember(atlas, d) && {
            &&& d.width == image.width && d.height == image.height
            &&& d.top == image.top && d.left == image.left
            &&& d.gpu_cache is SkipRasterization <==> image.width == 0 || image.height == 0
            &&& d.gpu_cache matches GpuCacheStatus::InAtlas { x: ax, y: ay, content_type } ==> ax
                == x && ay == y && content_type == image.content_type && atlas
                == image.content_type
        },
{
}

} // verus!
