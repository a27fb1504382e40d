//! A renderer that gathers the glyphs of a frame, and the pipelines of texts.

use crate::batch::TextBounds;
use crate::buffers;
use crate::buffers::next_copy_buffer_size;
use crate::glyph;
use crate::glyph::{
    glyph_bounds, is_run_visible, place_glyph, visible_runs, ColorMode, GlyphBounds, GlyphDetails,
    GlyphMetadata, GlyphToRender, RunLines, GLYPH_BYTES,
};
use crate::pass::TextStencilMode;
use crate::pipeline_plan::PipelineSlot;
use crate::vertex::{AttributeFormat, VertexAttribute};
use vstd::prelude::*;

verus! {

/// What becomes of the vertex buffer.
#[derive(Clone, Copy, Debug, PartialEq, Eq, Structural)]
pub enum Upload {
    /// There is nothing to write.
    Nothing,
    /// The glyphs are written to the buffer there is.
    Write,
    /// The buffer is replaced by one of the given size that holds the glyphs.
    Replace(u64),
}

/// The atlas cannot take any more glyphs.
#[derive(Clone, Copy, Debug, PartialEq, Eq, Structural)]
pub enum PrepareError {
    AtlasFull,
}

/// What the search for a glyph came to.
#[derive(Clone, Copy, Debug, PartialEq, Eq)]
pub enum FoundGlyph {
    Glyph(GlyphMetadata, GlyphDetails),
    /// There is no such glyph.
    NoGlyph,
    /// There was no space for it.
    AtlasFull,
}

/// A run of a text and its glyphs.
pub struct FoundRun {
    pub lines: RunLines,
    pub glyphs: Vec<FoundGlyph>,
}

/// A text and its glyphs.
pub struct FoundArea {
    pub bounds: TextBounds,
    pub transform_index: u32,
    /// Glyphs that the application draws.
    pub custom: Vec<FoundGlyph>,
    pub runs: Vec<FoundRun>,
}

/// A glyph whose place in its text is known, and the run it is in.
#[derive(Clone, Copy, Debug)]
pub struct ResolvedGlyph {
    pub bounds: TextBounds,
    pub transform_index: u32,
    pub lines: RunLines,
    pub found: FoundGlyph,
}

/// Whether all numbers of some glyphs are pixels and texels.
pub open spec fn all_placeable(found: Seq<FoundGlyph>, bounds: GlyphBounds) -> bool {
    forall|i: int|
        0 <= i < found.len() ==> (#[trigger] found[i] matches FoundGlyph::Glyph(m, d)
            ==> glyph::placeable(m, d, bounds))
}

/// The glyphs to draw of those found, up to the first for which there was no
/// space; and whether there was none.
pub open spec fn gathered(found: Seq<FoundGlyph>, bounds: GlyphBounds, mode: ColorMode) -> (
    Seq<GlyphToRender>,
    bool,
)
    decreases found.len(),
{
    if found.len() == 0 {
        (seq![], true)
    } else {
        let before = gathered(found.drop_last(), bounds, mode);
        if !before.1 {
            before
        } else {
            match found.last() {
                FoundGlyph::AtlasFull => (before.0, false),
                FoundGlyph::NoGlyph => before,
                FoundGlyph::Glyph(m, d) => match glyph::placed(m, d, bounds, mode) {
                    Some(g) => (before.0.push(g), true),
                    None => before,
                },
            }
        }
    }
}

/// The glyphs of some runs, run after run.
pub open spec fn run_glyphs(runs: Seq<FoundRun>) -> Seq<FoundGlyph>
    decreases runs.len(),
{
    if runs.len() == 0 {
        seq![]
    } else {
        run_glyphs(runs.drop_last()) + runs.last().glyphs@
    }
}

/// The lines of some runs.
pub open spec fn lines_of(runs: Seq<FoundRun>) -> Seq<RunLines> {
    runs.map_values(|r: FoundRun| r.lines)
}

impl FoundArea {
    /// The glyphs of the text that may be seen, in the order of drawing: those
    /// that the application draws, then those of the runs from the first that is
    /// visible up to the next that is not.
    pub open spec fn glyphs(self) -> Seq<FoundGlyph> {
        let (top, bottom) = (self.bounds.top, self.bounds.bottom);
        let start = glyph::next_run(lines_of(self.runs@), 0, true, top, bottom);
        let end = glyph::next_run(lines_of(self.runs@), start, false, top, bottom);
        self.custom@ + run_glyphs(self.runs@.subrange(start, end))
    }

    /// What the glyphs are clipped to on a screen of the given size.
    pub open spec fn clip(self, width: u32, height: u32) -> GlyphBounds {
        glyph::bounds_of(self.bounds, self.transform_index, width, height)
    }

    /// Whether all numbers of the text are lines, pixels and texels.
    pub open spec fn fits(self, width: u32, height: u32) -> bool {
        &&& forall|i: int|
            0 <= i < self.runs@.len() ==> glyph::run_fits((#[trigger] self.runs@[i]).lines)
        &&& all_placeable(self.glyphs(), self.clip(width, height))
    }

    /// [`gathered`] of the text.
    pub open spec fn gathered(self, width: u32, height: u32, mode: ColorMode) -> (
        Seq<GlyphToRender>,
        bool,
    ) {
        gathered(self.glyphs(), self.clip(width, height), mode)
    }
}

/// [`gathered`] of some texts, one after the other.
pub open spec fn all_gathered(
    areas: Seq<FoundArea>,
    width: u32,
    height: u32,
    mode: ColorMode,
) -> (Seq<GlyphToRender>, bool)
    decreases areas.len(),
{
    if areas.len() == 0 {
        (seq![], true)
    } else {
        let before = all_gathered(areas.drop_last(), width, height, mode);
        if !before.1 {
            before
        } else {
            let last = areas.last().gathered(width, height, mode);
            (before.0 + last.0, last.1)
        }
    }
}

/// How many glyphs of some texts may be seen.
pub open spec fn found_count(areas: Seq<FoundArea>) -> nat
    decreases areas.len(),
{
    if areas.len() == 0 {
        0
    } else {
        found_count(areas.drop_last()) + areas.last().glyphs().len()
    }
}

impl ResolvedGlyph {
    /// The glyph alone, or nothing if its run is not visible.
    pub open spec fn shown(self) -> Seq<FoundGlyph> {
        if glyph::run_visible(self.lines, self.bounds.top, self.bounds.bottom) {
            seq![self.found]
        } else {
            seq![]
        }
    }

    /// What the glyph is clipped to on a screen of the given size.
    pub open spec fn clip(self, width: u32, height: u32) -> GlyphBounds {
        glyph::bounds_of(self.bounds, self.transform_index, width, height)
    }

    /// Whether all numbers of the glyph are lines, pixels and texels.
    pub open spec fn fits(self, width: u32, height: u32) -> bool {
        &&& glyph::run_fits(self.lines)
        &&& all_placeable(seq![self.found], self.clip(width, height))
    }
}

/// [`gathered`] of some glyphs whose place is known.
pub open spec fn all_resolved(
    glyphs: Seq<ResolvedGlyph>,
    width: u32,
    height: u32,
    mode: ColorMode,
) -> (Seq<GlyphToRender>, bool)
    decreases glyphs.len(),
{
    if glyphs.len() == 0 {
        (seq![], true)
    } else {
        let before = all_resolved(glyphs.drop_last(), width, height, mode);
        if !before.1 {
            before
        } else {
            let last = gathered(glyphs.last().shown(), glyphs.last().clip(width, height), mode);
            (before.0 + last.0, last.1)
        }
    }
}

proof fn lemma_gathered_concat(
    a: Seq<FoundGlyph>,
    b: Seq<FoundGlyph>,
    bounds: GlyphBounds,
    mode: ColorMode,
)
    ensures
        gathered(a, bounds, mode).1 ==> gathered(a + b, bounds, mode) == (
            gathered(a, bounds, mode).0 + gathered(b, bounds, mode).0,
            gathered(b, bounds, mode).1,
        ),
        !gathered(a, bounds, mode).1 ==> gathered(a + b, bounds, mode) == gathered(a, bounds, mode),
    decreases b.len(),
{
    if b.len() == 0 {
        assert(a + b =~= a);
        assert(gathered(a, bounds, mode).0 + seq![] =~= gathered(a, bounds, mode).0);
    } else {
        lemma_gathered_concat(a, b.drop_last(), bounds, mode);
        assert((a + b).drop_last() =~= a + b.drop_last());
        assert((a + b).last() == b.last());
        let ga = gathered(a, bounds, mode);
        let gb = gathered(b.drop_last(), bounds, mode);
        if ga.1 && gb.1 {
            if let FoundGlyph::Glyph(m, d) = b.last() {
                if let Some(g) = glyph::placed(m, d, bounds, mode) {
                    assert(ga.0 + gb.0.push(g) =~= (ga.0 + gb.0).push(g));
                }
            }
        }
    }
}

proof fn lemma_gathered_one(found: FoundGlyph, bounds: GlyphBounds, mode: ColorMode)
    ensures
        gathered(seq![found], bounds, mode) == (match found {
            FoundGlyph::AtlasFull => (seq![], false),
            FoundGlyph::NoGlyph => (seq![], true),
            FoundGlyph::Glyph(m, d) => match glyph::placed(m, d, bounds, mode) {
                Some(g) => (seq![g], true),
                None => (seq![], true),
            },
        }),
{
    let one = seq![found];
    assert(one.drop_last() =~= seq![]);
    assert(gathered(one.drop_last(), bounds, mode) == (Seq::<GlyphToRender>::empty(), true));
    if let FoundGlyph::Glyph(m, d) = found {
        if let Some(g) = glyph::placed(m, d, bounds, mode) {
            assert(Seq::<GlyphToRender>::empty().push(g) =~= seq![g]);
        }
    }
}

proof fn lemma_placeable_parts(a: Seq<FoundGlyph>, b: Seq<FoundGlyph>, bounds: GlyphBounds)
    requires
        all_placeable(a + b, bounds),
    ensures
        all_placeable(a, bounds),
        all_placeable(b, bounds),
{
    assert forall|i: int| 0 <= i < a.len() implies (#[trigger] a[i] matches FoundGlyph::Glyph(m, d)
        ==> glyph::placeable(m, d, bounds)) by {
        assert((a + b)[i] == a[i]);
    }
    assert forall|i: int| 0 <= i < b.len() implies (#[trigger] b[i] matches FoundGlyph::Glyph(m, d)
        ==> glyph::placeable(m, d, bounds)) by {
        assert((a + b)[a.len() + i] == b[i]);
    }
}

proof fn lemma_run_glyphs_concat(a: Seq<FoundRun>, b: Seq<FoundRun>)
    ensures
        run_glyphs(a + b) == run_glyphs(a) + run_glyphs(b),
    decreases b.len(),
{
    if b.len() == 0 {
        assert(a + b =~= a);
        assert(run_glyphs(a) + seq![] =~= run_glyphs(a));
    } else {
        lemma_run_glyphs_concat(a, b.drop_last());
        assert((a + b).drop_last() =~= a + b.drop_last());
        assert((a + b).last() == b.last());
        assert(run_glyphs(a + b) =~= run_glyphs(a) + run_glyphs(b));
    }
}

proof fn lemma_gathered_len(found: Seq<FoundGlyph>, bounds: GlyphBounds, mode: ColorMode)
    ensures
        gathered(found, bounds, mode).0.len() <= found.len(),
    decreases found.len(),
{
    if found.len() > 0 {
        lemma_gathered_len(found.drop_last(), bounds, mode);
    }
}

proof fn lemma_all_gathered_len(areas: Seq<FoundArea>, width: u32, height: u32, mode: ColorMode)
    ensures
        all_gathered(areas, width, height, mode).0.len() <= found_count(areas),
    decreases areas.len(),
{
    if areas.len() > 0 {
        lemma_all_gathered_len(areas.drop_last(), width, height, mode);
        let last = areas.last();
        lemma_gathered_len(last.glyphs(), last.clip(width, height), mode);
    }
}

proof fn lemma_all_gathered_stops(
    areas: Seq<FoundArea>,
    n: int,
    width: u32,
    height: u32,
    mode: ColorMode,
)
    requires
        0 <= n <= areas.len(),
        !all_gathered(areas.take(n), width, height, mode).1,
    ensures
        all_gathered(areas, width, height, mode) == all_gathered(
            areas.take(n),
            width,
            height,
            mode,
        ),
    decreases areas.len(),
{
    if n == areas.len() {
        assert(areas.take(n) =~= areas);
    } else {
        assert(areas.drop_last().take(n) =~= areas.take(n));
        lemma_all_gathered_stops(areas.drop_last(), n, width, height, mode);
    }
}

proof fn lemma_all_resolved_stops(
    glyphs: Seq<ResolvedGlyph>,
    n: int,
    width: u32,
    height: u32,
    mode: ColorMode,
)
    requires
        0 <= n <= glyphs.len(),
        !all_resolved(glyphs.take(n), width, height, mode).1,
    ensures
        all_resolved(glyphs, width, height, mode) == all_resolved(
            glyphs.take(n),
            width,
            height,
            mode,
        ),
    decreases glyphs.len(),
{
    if n == glyphs.len() {
        assert(glyphs.take(n) =~= glyphs);
    } else {
        assert(glyphs.drop_last().take(n) =~= glyphs.take(n));
        lemma_all_resolved_stops(glyphs.drop_last(), n, width, height, mode);
    }
}

fn run_lines(runs: &Vec<FoundRun>) -> (r: Vec<RunLines>)
    ensures
        r@ == lines_of(runs@),
{
    let mut r: Vec<RunLines> = Vec::new();
    let mut i: usize = 0;
    while i < runs.len()
        invariant
            i <= runs.len(),
            r@ == lines_of(runs@).take(i as int),
        decreases runs.len() - i,
    {
        r.push(runs[i].lines);
        i = i + 1;
        assert(r@ =~= lines_of(runs@).take(i as int));
    }
    assert(r@ =~= lines_of(runs@));
    r
}

/// Gathers glyphs for one buffer.
pub struct TextRenderer {
    pub vertex_buffer_size: u64,
    pub glyph_vertices: Vec<GlyphToRender>,
    pub defer_upload: bool,
}

/// Whether the bytes of some glyphs have a power of two above them.
pub open spec fn glyphs_fit(count: nat) -> bool {
    count * GLYPH_BYTES <= 0x8000_0000_0000_0000
}

/// The size of a buffer that `size` bytes can be copied into.
pub open spec fn is_copy_size(size: nat, r: u64) -> bool {
    exists|p: nat|
        #[trigger] buffers::is_next_pow2(size, p) && r == if p >= 4 {
            p
        } else {
            4
        }
}

impl TextRenderer {
    /// What an upload does: nothing without glyphs; a buffer that is too small
    /// is replaced.
    pub open spec fn uploads(self, r: Upload, after: TextRenderer) -> bool {
        let required = self.glyph_vertices@.len() * GLYPH_BYTES;
        &&& after.glyph_vertices@ == self.glyph_vertices@
        &&& self.glyph_vertices@.len() == 0 ==> r == Upload::Nothing && after.vertex_buffer_size
            == self.vertex_buffer_size
        &&& self.glyph_vertices@.len() > 0 && self.vertex_buffer_size >= required ==> r
            == Upload::Write && after.vertex_buffer_size == self.vertex_buffer_size
        &&& self.glyph_vertices@.len() > 0 && self.vertex_buffer_size < required ==> r
            == Upload::Replace(after.vertex_buffer_size) && is_copy_size(
            required as nat,
            after.vertex_buffer_size,
        )
    }

    /// What becomes of the buffer once glyphs were added: nothing until the end of
    /// the frame, where that is waited for, and else an upload.
    pub open spec fn prepared(self, r: Upload, after: TextRenderer) -> bool {
        if self.defer_upload {
            r == Upload::Nothing && after.vertex_buffer_size == self.vertex_buffer_size
        } else {
            (TextRenderer { glyph_vertices: after.glyph_vertices, ..self }).uploads(r, after)
        }
    }

    /// A renderer without glyphs, with a buffer of 4096 bytes.
    pub fn new() -> (r: TextRenderer)
        ensures
            is_copy_size(4096, r.vertex_buffer_size),
            r.glyph_vertices@ == Seq::<GlyphToRender>::empty(),
            !r.defer_upload,
    {
        let vertex_buffer_size = next_copy_buffer_size(4096);
        TextRenderer { vertex_buffer_size, glyph_vertices: Vec::new(), defer_upload: false }
    }

    /// Adds the glyphs of a list, up to where the atlas was full; whether it was
    /// not.
    fn gather(&mut self, found: &Vec<FoundGlyph>, bounds: GlyphBounds, mode: ColorMode) -> (ok: bool)
        requires
            all_placeable(found@, bounds),
        ensures
            final(self).glyph_vertices@ == old(self).glyph_vertices@ + gathered(
                found@,
                bounds,
                mode,
            ).0,
            ok == gathered(found@, bounds, mode).1,
            final(self).vertex_buffer_size == old(self).vertex_buffer_size,
            final(self).defer_upload == old(self).defer_upload,
    {
        let ghost before = self.glyph_vertices@;
        let mut i: usize = 0;
        assert(found@.take(0) =~= seq![]);
        assert(before + gathered(found@.take(0), bounds, mode).0 =~= before);
        while i < found.len()
            invariant
                i <= found.len(),
                before == old(self).glyph_vertices@,
                all_placeable(found@, bounds),
                gathered(found@.take(i as int), bounds, mode).1,
                self.glyph_vertices@ == before + gathered(found@.take(i as int), bounds, mode).0,
                self.vertex_buffer_size == old(self).vertex_buffer_size,
                self.defer_upload == old(self).defer_upload,
            decreases found.len() - i,
        {
            assert(found@.take(i + 1).drop_last() =~= found@.take(i as int));
            match found[i] {
                FoundGlyph::AtlasFull => {
                    proof {
                        lemma_gathered_concat(
                            found@.take(i + 1),
                            found@.skip(i + 1),
                            bounds,
                            mode,
                        );
                        assert(found@.take(i + 1) + found@.skip(i + 1) =~= found@);
                    }
                    return false;
                },
                FoundGlyph::NoGlyph => {},
                FoundGlyph::Glyph(m, d) => {
                    if let Some(glyph) = place_glyph(m, d, bounds, mode) {
                        self.glyph_vertices.push(glyph);
                    }
                },
            }
            assert(self.glyph_vertices@ =~= before + gathered(
                found@.take(i + 1),
                bounds,
                mode,
            ).0);
            i = i + 1;
        }
        assert(found@.take(i as int) =~= found@);
        true
    }

    /// Adds the glyphs of one text: those that the application draws, then those
    /// of the runs that are visible.
    fn gather_area(&mut self, area: &FoundArea, width: u32, height: u32, mode: ColorMode) -> (ok:
        bool)
        requires
            area.fits(width, height),
        ensures
            final(self).glyph_vertices@ == old(self).glyph_vertices@ + area.gathered(
                width,
                height,
                mode,
            ).0,
            ok == area.gathered(width, height, mode).1,
            final(self).vertex_buffer_size == old(self).vertex_buffer_size,
            final(self).defer_upload == old(self).defer_upload,
    {
        let ghost before = self.glyph_vertices@;
        let bounds = glyph_bounds(area.bounds, area.transform_index, width, height);
        let lines = run_lines(&area.runs);
        let (start, end) = visible_runs(&lines, area.bounds.top, area.bounds.bottom);
        let ghost shown = area.runs@.subrange(start as int, end as int);
        let ghost list = area.glyphs();
        assert(list == area.custom@ + run_glyphs(shown));
        proof {
            lemma_placeable_parts(area.custom@, run_glyphs(shown), bounds);
            lemma_gathered_concat(area.custom@, run_glyphs(shown), bounds, mode);
        }
        if !self.gather(&area.custom, bounds, mode) {
            return false;
        }
        let ghost first = gathered(area.custom@, bounds, mode).0;
        let mut i: usize = start;
        assert(shown.take(0) =~= seq![]);
        assert(first + gathered(run_glyphs(shown.take(0)), bounds, mode).0 =~= first);
        while i < end
            invariant
                start <= i <= end <= area.runs@.len(),
                before == old(self).glyph_vertices@,
                bounds == area.clip(width, height),
                area.glyphs() == area.custom@ + run_glyphs(shown),
                gathered(area.custom@, bounds, mode) == (first, true),
                shown == area.runs@.subrange(start as int, end as int),
                all_placeable(run_glyphs(shown), bounds),
                gathered(run_glyphs(shown.take(i - start)), bounds, mode).1,
                self.glyph_vertices@ == before + (first + gathered(
                    run_glyphs(shown.take(i - start)),
                    bounds,
                    mode,
                ).0),
                self.vertex_buffer_size == old(self).vertex_buffer_size,
                self.defer_upload == old(self).defer_upload,
            decreases end - i,
        {
            let run = &area.runs[i];
            let ghost done = shown.take(i - start);
            let ghost more = shown.take(i - start + 1);
            let ghost rest = shown.skip(i - start + 1);
            proof {
                assert(run == shown[i - start]);
                assert(more.drop_last() =~= done);
                lemma_run_glyphs_concat(more, rest);
                assert(more + rest =~= shown);
                lemma_placeable_parts(run_glyphs(more), run_glyphs(rest), bounds);
                lemma_placeable_parts(run_glyphs(done), run.glyphs@, bounds);
                lemma_gathered_concat(run_glyphs(done), run.glyphs@, bounds, mode);
                lemma_gathered_concat(run_glyphs(more), run_glyphs(rest), bounds, mode);
                lemma_gathered_concat(area.custom@, run_glyphs(shown), bounds, mode);
            }
            let ghost prior = self.glyph_vertices@;
            let ok = self.gather(&run.glyphs, bounds, mode);
            assert(self.glyph_vertices@ =~= before + (first + gathered(
                run_glyphs(more),
                bounds,
                mode,
            ).0));
            if !ok {
                return false;
            }
            i = i + 1;
        }
        assert(shown.take(end - start) =~= shown);
        true
    }

    /// Adds the glyphs of some texts, and uploads all there are unless that waits
    /// for the end of the frame. Where the atlas was full, the glyphs found before
    /// are added and nothing is uploaded.
    pub fn prepare_with_depth_and_custom(
        &mut self,
        areas: &Vec<FoundArea>,
        width: u32,
        height: u32,
        mode: ColorMode,
    ) -> (r: Result<Upload, PrepareError>)
        requires
            forall|i: int| 0 <= i < areas@.len() ==> (#[trigger] areas@[i]).fits(width, height),
            glyphs_fit(old(self).glyph_vertices@.len() + found_count(areas@)),
        ensures
            final(self).defer_upload == old(self).defer_upload,
            final(self).glyph_vertices@ == old(self).glyph_vertices@ + all_gathered(
                areas@,
                width,
                height,
                mode,
            ).0,
            r is Ok <==> all_gathered(areas@, width, height, mode).1,
            r is Err ==> final(self).vertex_buffer_size == old(self).vertex_buffer_size,
            r matches Ok(upload) ==> old(self).prepared(upload, *final(self)),
    {
        let ghost before = self.glyph_vertices@;
        let mut i: usize = 0;
        assert(areas@.take(0) =~= seq![]);
        assert(before + all_gathered(areas@.take(0), width, height, mode).0 =~= before);
        while i < areas.len()
            invariant
                i <= areas.len(),
                before == old(self).glyph_vertices@,
                forall|i: int| 0 <= i < areas@.len() ==> (#[trigger] areas@[i]).fits(width, height),
                all_gathered(areas@.take(i as int), width, height, mode).1,
                self.glyph_vertices@ == before + all_gathered(
                    areas@.take(i as int),
                    width,
                    height,
                    mode,
                ).0,
                self.vertex_buffer_size == old(self).vertex_buffer_size,
                self.defer_upload == old(self).defer_upload,
            decreases areas.len() - i,
        {
            assert(areas@.take(i + 1).drop_last() =~= areas@.take(i as int));
            let ok = self.gather_area(&areas[i], width, height, mode);
            assert(self.glyph_vertices@ =~= before + all_gathered(
                areas@.take(i + 1),
                width,
                height,
                mode,
            ).0);
            if !ok {
                proof {
                    lemma_all_gathered_stops(areas@, i + 1, width, height, mode);
                }
                return Err(PrepareError::AtlasFull);
            }
            i = i + 1;
        }
        assert(areas@.take(i as int) =~= areas@);
        proof {
            lemma_all_gathered_len(areas@, width, height, mode);
        }
        if !self.defer_upload {
            Ok(self.upload())
        } else {
            Ok(Upload::Nothing)
        }
    }

    /// Adds glyphs whose place in their text is known, of those runs that are
    /// visible, and uploads as [`TextRenderer::prepare_with_depth_and_custom`]
    /// does.
    pub fn prepare_resolved_glyphs(
        &mut self,
        glyphs: &Vec<ResolvedGlyph>,
        width: u32,
        height: u32,
        mode: ColorMode,
    ) -> (r: Result<Upload, PrepareError>)
        requires
            forall|i: int| 0 <= i < glyphs@.len() ==> (#[trigger] glyphs@[i]).fits(width, height),
            glyphs_fit(old(self).glyph_vertices@.len() + glyphs@.len()),
        ensures
            final(self).defer_upload == old(self).defer_upload,
            final(self).glyph_vertices@ == old(self).glyph_vertices@ + all_resolved(
                glyphs@,
                width,
                height,
                mode,
            ).0,
            r is Ok <==> all_resolved(glyphs@, width, height, mode).1,
            r is Err ==> final(self).vertex_buffer_size == old(self).vertex_buffer_size,
            r matches Ok(upload) ==> old(self).prepared(upload, *final(self)),
    {
        let ghost before = self.glyph_vertices@;
        let mut i: usize = 0;
        assert(glyphs@.take(0) =~= seq![]);
        assert(before + all_resolved(glyphs@.take(0), width, height, mode).0 =~= before);
        while i < glyphs.len()
            invariant
                i <= glyphs.len(),
                before == old(self).glyph_vertices@,
                forall|i: int|
                    0 <= i < glyphs@.len() ==> (#[trigger] glyphs@[i]).fits(width, height),
                all_resolved(glyphs@.take(i as int), width, height, mode).1,
                all_resolved(glyphs@.take(i as int), width, height, mode).0.len() <= i,
                self.glyph_vertices@ == before + all_resolved(
                    glyphs@.take(i as int),
                    width,
                    height,
                    mode,
                ).0,
                self.vertex_buffer_size == old(self).vertex_buffer_size,
                self.defer_upload == old(self).defer_upload,
            decreases glyphs.len() - i,
        {
            assert(glyphs@.take(i + 1).drop_last() =~= glyphs@.take(i as int));
            let g = &glyphs[i];
            proof {
                lemma_gathered_one(g.found, g.clip(width, height), mode);
                assert(seq![g.found][0] == g.found);
            }
            if is_run_visible(g.lines, g.bounds.top, g.bounds.bottom) {
                let bounds = glyph_bounds(g.bounds, g.transform_index, width, height);
                match g.found {
                    FoundGlyph::AtlasFull => {
                        proof {
                            lemma_all_resolved_stops(glyphs@, i + 1, width, height, mode);
                        }
                        return Err(PrepareError::AtlasFull);
                    },
                    FoundGlyph::NoGlyph => {},
                    FoundGlyph::Glyph(m, d) => {
                        if let Some(glyph) = place_glyph(m, d, bounds, mode) {
                            self.glyph_vertices.push(glyph);
                        }
                    },
                }
            }
            assert(self.glyph_vertices@ =~= before + all_resolved(
                glyphs@.take(i + 1),
                width,
                height,
                mode,
            ).0);
            i = i + 1;
        }
        assert(glyphs@.take(i as int) =~= glyphs@);
        if !self.defer_upload {
            Ok(self.upload())
        } else {
            Ok(Upload::Nothing)
        }
    }

    /// Uploads the glyphs gathered so far.
    pub fn upload(&mut self) -> (r: Upload)
        requires
            glyphs_fit(old(self).glyph_vertices@.len()),
        ensures
            old(self).uploads(r, *final(self)),
            final(self).defer_upload == old(self).defer_upload,
            final(self).glyph_vertices == old(self).glyph_vertices,
    {
        if self.glyph_vertices.len() == 0 {
            return Upload::Nothing;
        }
        let required: u64 = self.glyph_vertices.len() as u64 * GLYPH_BYTES;
        if self.vertex_buffer_size < required {
            let size = next_copy_buffer_size(required);
            self.vertex_buffer_size = size;
            Upload::Replace(size)
        } else {
            Upload::Write
        }
    }

    /// Forgets the glyphs of the last frame; uploads wait for the end of this
    /// one.
    pub fn begin_frame(&mut self)
        ensures
            final(self).glyph_vertices@ == Seq::<GlyphToRender>::empty(),
            final(self).defer_upload,
            final(self).vertex_buffer_size == old(self).vertex_buffer_size,
    {
        self.glyph_vertices.clear();
        self.defer_upload = true;
    }

    /// Uploads the glyphs of the frame.
    pub fn finish_frame(&mut self) -> (r: Upload)
        requires
            glyphs_fit(old(self).glyph_vertices@.len()),
        ensures
            old(self).uploads(r, *final(self)),
            !final(self).defer_upload,
    {
        let r = self.upload();
        self.defer_upload = false;
        r
    }

    /// Forgets all glyphs.
    pub fn clear(&mut self)
        ensures
            final(self).glyph_vertices@ == Seq::<GlyphToRender>::empty(),
            final(self).defer_upload == old(self).defer_upload,
            final(self).vertex_buffer_size == old(self).vertex_buffer_size,
    {
        self.glyph_vertices.clear();
    }

    /// How many glyphs there are.
    pub fn glyph_vertex_count(&self) -> (r: u32)
        ensures
            r == self.glyph_vertices@.len() as u32,
    {
        self.glyph_vertices.len() as u32
    }

    /// How all glyphs are drawn.
    pub fn render(&self) -> (r: Option<RangeDraw>)
        ensures
            r == range_draw(0, self.glyph_vertices@.len() as u32, None, false, false, false),
    {
        self.render_range_with_material(
            0,
            self.glyph_vertices.len() as u32,
            None,
            false,
            false,
            false,
        )
    }

    /// How some glyphs are drawn.
    pub fn render_range(&self, vertex_start: u32, vertex_count: u32) -> (r: Option<RangeDraw>)
        ensures
            r == range_draw(vertex_start, vertex_count, None, false, false, false),
    {
        self.render_range_with_material(vertex_start, vertex_count, None, false, false, false)
    }

    /// How some glyphs are drawn with a stencil reference.
    pub fn render_range_with_stencil_ref(
        &self,
        vertex_start: u32,
        vertex_count: u32,
        stencil_ref: Option<u32>,
    ) -> (r: Option<RangeDraw>)
        ensures
            r == range_draw(vertex_start, vertex_count, stencil_ref, false, false, false),
    {
        self.render_range_with_material(vertex_start, vertex_count, stencil_ref, false, false, false)
    }

    /// How some glyphs are drawn. The flags say whether there is an atlas, a
    /// pipeline and a bind group in place of the renderer's own.
    pub fn render_range_with_material(
        &self,
        vertex_start: u32,
        vertex_count: u32,
        stencil_ref: Option<u32>,
        atlas_bind_group: bool,
        material_pipeline: bool,
        material_bind_group: bool,
    ) -> (r: Option<RangeDraw>)
        ensures
            r == range_draw(
                vertex_start,
                vertex_count,
                stencil_ref,
                atlas_bind_group,
                material_pipeline,
                material_bind_group,
            ),
    {
        if vertex_count == 0 {
            return None;
        }
        Some(
            RangeDraw {
                byte_offset: vertex_start as u64 * GLYPH_BYTES,
                instances: vertex_count,
                stencil_ref,
                own_atlas: !atlas_bind_group,
                own_pipeline: !material_pipeline,
                binds_material: material_bind_group,
            },
        )
    }
}

/// How a range of glyphs is drawn, four vertices each.
#[derive(Clone, Copy, Debug, PartialEq, Eq, Structural)]
pub struct RangeDraw {
    pub byte_offset: u64,
    pub instances: u32,
    /// Set once the pipeline is set.
    pub stencil_ref: Option<u32>,
    pub own_atlas: bool,
    pub own_pipeline: bool,
    pub binds_material: bool,
}

/// How a range of glyphs is drawn; an empty one is not.
pub open spec fn range_draw(
    start: u32,
    count: u32,
    stencil_ref: Option<u32>,
    atlas: bool,
    pipeline: bool,
    material: bool,
) -> Option<RangeDraw> {
    if count == 0 {
        None
    } else {
        Some(
            RangeDraw {
                byte_offset: (start * GLYPH_BYTES) as u64,
                instances: count,
                stencil_ref,
                own_atlas: !atlas,
                own_pipeline: !pipeline,
                binds_material: material,
            },
        )
    }
}

/// Law: after an upload the buffer holds all glyphs.
pub proof fn lemma_uploaded_glyphs_fit(before: TextRenderer, r: Upload, after: TextRenderer)
    requires
        before.uploads(r, after),
    ensures
        after.glyph_vertices@ == before.glyph_vertices@,
        after.vertex_buffer_size >= after.glyph_vertices@.len() * GLYPH_BYTES,
{
}

// ---------------------------------------------------------------------------
// Pipelines and layouts
// ---------------------------------------------------------------------------

/// Where the attributes of a glyph lie: position, size, texel, colour, content
/// type, depth, transform row, texture coordinates. They fill the glyph without
/// gaps.
pub fn glyph_attributes() -> (r: [VertexAttribute; 8])
    ensures
        forall|i: int| 0 <= i < 8 ==> (#[trigger] r@[i]).shader_location == i,
        r@[0].offset == 0,
        forall|i: int|
            0 <= i < 7 ==> #[trigger] r@[i + 1].offset == r@[i].offset + r@[i].format.spec_bytes(),
        r@[7].offset + r@[7].format.spec_bytes() == GLYPH_BYTES,
        r@.map_values(|a: VertexAttribute| a.format) == seq![
            AttributeFormat::Sint32x2,
            AttributeFormat::Uint32,
            AttributeFormat::Uint32,
            AttributeFormat::Uint32,
            AttributeFormat::Uint32,
            AttributeFormat::Float32,
            AttributeFormat::Uint32,
            AttributeFormat::Float32x4,
        ],
{
    let r = [
        VertexAttribute { offset: 0, format: AttributeFormat::Sint32x2, shader_location: 0 },
        VertexAttribute { offset: 8, format: AttributeFormat::Uint32, shader_location: 1 },
        VertexAttribute { offset: 12, format: AttributeFormat::Uint32, shader_location: 2 },
        VertexAttribute { offset: 16, format: AttributeFormat::Uint32, shader_location: 3 },
        VertexAttribute { offset: 20, format: AttributeFormat::Uint32, shader_location: 4 },
        VertexAttribute { offset: 24, format: AttributeFormat::Float32, shader_location: 5 },
        VertexAttribute { offset: 28, format: AttributeFormat::Uint32, shader_location: 6 },
        VertexAttribute { offset: 32, format: AttributeFormat::Float32x4, shader_location: 7 },
    ];
    assert(r@.map_values(|a: VertexAttribute| a.format) =~= seq![
        AttributeFormat::Sint32x2,
        AttributeFormat::Uint32,
        AttributeFormat::Uint32,
        AttributeFormat::Uint32,
        AttributeFormat::Uint32,
        AttributeFormat::Float32,
        AttributeFormat::Uint32,
        AttributeFormat::Float32x4,
    ]);
    r
}

/// What a pipeline of texts is made for. The format is a number that the
/// caller gives to formats.
#[derive(Clone, Copy, Debug, PartialEq, Eq, Structural)]
pub struct TextPipelineKey {
    pub format: u32,
    pub sample_count: u32,
    pub sample_mask: u64,
    pub alpha_to_coverage: bool,
    pub stencil: TextStencilMode,
}

/// The pipelines of texts that were made, in the order of making.
pub struct TextPipelines {
    pub made: Vec<TextPipelineKey>,
}

impl TextPipelines {
    /// No two pipelines were made for the same.
    pub open spec fn wf(self) -> bool {
        forall|i: int, j: int| 0 <= i < j < self.made@.len() ==> self.made@[i] != self.made@[j]
    }

    /// No pipelines.
    pub fn new() -> (r: TextPipelines)
        ensures
            r.wf(),
            r.made@ == Seq::<TextPipelineKey>::empty(),
    {
        TextPipelines { made: Vec::new() }
    }

    /// Finds a pipeline, or gives it the next place.
    pub fn get_or_create_pipeline(&mut self, key: TextPipelineKey) -> (r: PipelineSlot)
        requires
            old(self).wf(),
        ensures
            final(self).wf(),
            old(self).made@.contains(key) ==> final(self).made@ == old(self).made@ && (
            r matches PipelineSlot::Cached(i) && i < old(self).made@.len() && old(self).made@[i as int]
                == key),
            !old(self).made@.contains(key) ==> final(self).made@ == old(self).made@.push(key) && r
                == PipelineSlot::Create((old(self).made@.len()) as usize),
    {
        let mut i: usize = 0;
        while i < self.made.len()
            invariant
                i <= self.made.len(),
                *self == *old(self),
                self.wf(),
                forall|j: int| 0 <= j < i ==> self.made@[j] != key,
            decreases self.made.len() - i,
        {
            if self.made[i] == key {
                assert(self.made@[i as int] == key);
                return PipelineSlot::Cached(i);
            }
            i = i + 1;
        }
        self.made.push(key);
        PipelineSlot::Create(i)
    }
}

} // verus!
