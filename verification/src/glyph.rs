//! Glyphs: where they are found, how they are clipped, and how a renderer
//! gathers them.

use crate::batch::TextBounds;
use crate::vertex::F32Bits;
use vstd::prelude::*;

verus! {

// ---------------------------------------------------------------------------
// Bounds
// ---------------------------------------------------------------------------

/// A range of pixels.
#[derive(Clone, Copy, Debug, PartialEq, Eq, Structural)]
pub struct Bounds {
    pub min: i32,
    pub max: i32,
}

/// What glyphs are clipped to.
#[derive(Clone, Copy, Debug, PartialEq, Eq, Structural)]
pub struct GlyphBounds {
    pub x: Bounds,
    pub y: Bounds,
}

/// The part of a range from the first to the given last pixel of the screen;
/// empty at its own start if there is none.
pub open spec fn on_screen(min: i32, max: i32, size: i32) -> Bounds {
    let low = if min >= 0 {
        min
    } else {
        0
    };
    let high = if max <= size {
        max
    } else {
        size
    };
    Bounds {
        min: low,
        max: if high >= low {
            high
        } else {
            low
        },
    }
}

/// What the glyphs of an area are clipped to. Glyphs that are moved later are
/// not where they will be seen, so the screen does not clip them.
pub open spec fn bounds_of(
    bounds: TextBounds,
    transform_index: u32,
    width: u32,
    height: u32,
) -> GlyphBounds {
    if transform_index != 0 {
        GlyphBounds {
            x: Bounds { min: bounds.left, max: bounds.right },
            y: Bounds { min: bounds.top, max: bounds.bottom },
        }
    } else {
        GlyphBounds {
            x: on_screen(bounds.left, bounds.right, width as i32),
            y: on_screen(bounds.top, bounds.bottom, height as i32),
        }
    }
}

fn clip_to_screen(min: i32, max: i32, size: i32) -> (r: Bounds)
    ensures
        r == on_screen(min, max, size),
{
    let low: i32 = if min >= 0 {
        min
    } else {
        0
    };
    let high: i32 = if max <= size {
        max
    } else {
        size
    };
    Bounds {
        min: low,
        max: if high >= low {
            high
        } else {
            low
        },
    }
}

/// What the glyphs of an area are clipped to on a screen of the given size.
pub fn glyph_bounds(bounds: TextBounds, transform_index: u32, width: u32, height: u32) -> (r:
    GlyphBounds)
    ensures
        r == bounds_of(bounds, transform_index, width, height),
{
    if transform_index != 0 {
        GlyphBounds {
            x: Bounds { min: bounds.left, max: bounds.right },
            y: Bounds { min: bounds.top, max: bounds.bottom },
        }
    } else {
        GlyphBounds {
            x: clip_to_screen(bounds.left, bounds.right, width as i32),
            y: clip_to_screen(bounds.top, bounds.bottom, height as i32),
        }
    }
}

/// Law: glyphs that are not moved are clipped to a range on the screen, in
/// ascending order, that has no pixel that the area does not have.
pub proof fn lemma_bounds_on_screen(bounds: TextBounds, width: u32, height: u32, p: int)
    requires
        width <= i32::MAX,
        height <= i32::MAX,
    ensures
        ({
            let b = bounds_of(bounds, 0, width, height);
            &&& 0 <= b.x.min <= b.x.max
            &&& 0 <= b.y.min <= b.y.max
            &&& b.x.min <= p < b.x.max <==> bounds.left <= p < bounds.right && 0 <= p < width
            &&& b.y.min <= p < b.y.max <==> bounds.top <= p < bounds.bottom && 0 <= p < height
        }),
{
}

// ---------------------------------------------------------------------------
// Runs of a text
// ---------------------------------------------------------------------------

/// The lines of pixels of a run.
#[derive(Clone, Copy, Debug, PartialEq, Eq, Structural)]
pub struct RunLines {
    pub start: i32,
    pub height: i32,
}

/// Whether a run touches the lines of an area.
pub open spec fn run_visible(run: RunLines, top: i32, bottom: i32) -> bool {
    run.start <= bottom && top <= run.start + run.height
}

/// Whether the end of a run is a number of a line.
pub open spec fn run_fits(run: RunLines) -> bool {
    i32::MIN <= run.start + run.height <= i32::MAX
}

/// Whether a run touches the lines of an area.
pub fn is_run_visible(run: RunLines, top: i32, bottom: i32) -> (r: bool)
    requires
        run_fits(run),
    ensures
        r == run_visible(run, top, bottom),
{
    let end: i32 = run.start + run.height;
    run.start <= bottom && top <= end
}

/// The first run from number `i` on that is visible, or that is not; their number
/// if there is none.
pub open spec fn next_run(runs: Seq<RunLines>, i: int, visible: bool, top: i32, bottom: i32) -> int
    decreases runs.len() - i,
{
    if i >= runs.len() {
        runs.len() as int
    } else if run_visible(runs[i], top, bottom) == visible {
        i
    } else {
        next_run(runs, i + 1, visible, top, bottom)
    }
}

/// The runs to draw: from the first that is visible up to the next that is
/// not.
pub fn visible_runs(runs: &Vec<RunLines>, top: i32, bottom: i32) -> (r: (usize, usize))
    requires
        forall|i: int| 0 <= i < runs@.len() ==> run_fits(#[trigger] runs@[i]),
    ensures
        r.0 == next_run(runs@, 0, true, top, bottom),
        r.1 == next_run(runs@, r.0 as int, false, top, bottom),
        r.0 <= r.1 <= runs@.len(),
        forall|i: int| 0 <= i < r.0 ==> !run_visible(#[trigger] runs@[i], top, bottom),
        forall|i: int| r.0 <= i < r.1 ==> run_visible(#[trigger] runs@[i], top, bottom),
        r.0 < runs@.len() ==> r.0 < r.1,
        r.1 < runs@.len() ==> !run_visible(runs@[r.1 as int], top, bottom),
{
    let mut from: usize = 0;
    while from < runs.len() && !is_run_visible(runs[from], top, bottom)
        invariant
            from <= runs.len(),
            forall|i: int| 0 <= i < runs@.len() ==> run_fits(#[trigger] runs@[i]),
            next_run(runs@, 0, true, top, bottom) == next_run(runs@, from as int, true, top, bottom),
            forall|i: int| 0 <= i < from ==> !run_visible(#[trigger] runs@[i], top, bottom),
        decreases runs.len() - from,
    {
        from = from + 1;
    }
    let mut to: usize = from;
    while to < runs.len() && is_run_visible(runs[to], top, bottom)
        invariant
            from <= to <= runs.len(),
            forall|i: int| 0 <= i < runs@.len() ==> run_fits(#[trigger] runs@[i]),
            next_run(runs@, from as int, false, top, bottom) == next_run(
                runs@,
                to as int,
                false,
                top,
                bottom,
            ),
            forall|i: int| from <= i < to ==> run_visible(#[trigger] runs@[i], top, bottom),
        decreases runs.len() - to,
    {
        to = to + 1;
    }
    (from, to)
}

// ---------------------------------------------------------------------------
// Finding a glyph
// ---------------------------------------------------------------------------

/// What the pixels of a glyph hold, which is also the atlas that holds them.
#[derive(Clone, Copy, Debug, PartialEq, Eq, Structural)]
pub enum ContentType {
    Color,
    Mask,
}

/// How colours are written.
#[derive(Clone, Copy, Debug, PartialEq, Eq, Structural)]
pub enum ColorMode {
    Accurate,
    Web,
}

/// The picture of a glyph, without its pixels.
#[derive(Clone, Copy, Debug, PartialEq, Eq, Structural)]
pub struct GlyphImage {
    pub content_type: ContentType,
    pub top: i16,
    pub left: i16,
    pub width: u16,
    pub height: u16,
}

/// What the picture of a font's glyph holds.
#[derive(Clone, Copy, Debug, PartialEq, Eq, Structural)]
pub enum SwashContent {
    Mask,
    SubpixelMask,
    Color,
}

/// The picture of a font's glyph, from its content and its placement.
pub fn glyph_image(content: SwashContent, top: i32, left: i32, width: u32, height: u32) -> (r:
    GlyphImage)
    ensures
        r == (GlyphImage {
            content_type: if content == SwashContent::Color {
                ContentType::Color
            } else {
                ContentType::Mask
            },
            top: top as i16,
            left: left as i16,
            width: width as u16,
            height: height as u16,
        }),
{
    let content_type = match content {
        SwashContent::Color => ContentType::Color,
        SwashContent::Mask | SwashContent::SubpixelMask => ContentType::Mask,
    };
    GlyphImage {
        content_type,
        top: top as i16,
        left: left as i16,
        width: width as u16,
        height: height as u16,
    }
}

/// The picture of a custom glyph: that of a given content, if it was drawn; one
/// without pixels is not drawn.
pub fn custom_image(width: u16, height: u16, drawn: Option<ContentType>) -> (r: Option<GlyphImage>)
    ensures
        r is Some <==> drawn is Some && width > 0 && height > 0,
        r matches Some(image) ==> image == (GlyphImage {
            content_type: drawn->0,
            top: 0,
            left: 0,
            width,
            height,
        }),
{
    if width == 0 || height == 0 {
        return None;
    }
    match drawn {
        None => None,
        Some(content_type) => Some(GlyphImage { content_type, top: 0, left: 0, width, height }),
    }
}

/// Whether a glyph is in an atlas.
#[derive(Clone, Copy, Debug, PartialEq, Eq, Structural)]
pub enum GpuCacheStatus {
    InAtlas { x: u16, y: u16, content_type: ContentType },
    /// It has no pixels.
    SkipRasterization,
}

/// What is known of a glyph.
#[derive(Clone, Copy, Debug, PartialEq, Eq, Structural)]
pub struct GlyphDetails {
    pub width: u16,
    pub height: u16,
    pub gpu_cache: GpuCacheStatus,
    pub top: i16,
    pub left: i16,
}

/// What a search has to learn next, or what it found.
#[derive(Clone, Copy, Debug, PartialEq, Eq, Structural)]
pub enum GlyphSearch {
    /// Whether the mask atlas knows the glyph.
    AskMask,
    /// Whether the colour atlas knows the glyph.
    AskColor,
    /// What the glyph looks like.
    AskImage,
    /// Where the atlas has space for the picture.
    AskSpace(GlyphImage),
    /// Whether the atlas can grow.
    AskGrowth(GlyphImage),
    /// The glyph is known to an atlas, which marks it as used.
    Known(ContentType, GlyphDetails),
    /// The glyph is to be remembered by an atlas, and its pixels are to be
    /// written there if it has any.
    Remember(ContentType, GlyphDetails),
    /// There is no such glyph.
    NoGlyph,
    /// There is no space for it.
    AtlasFull,
}

/// An answer to what a search asked.
#[derive(Clone, Copy, Debug, PartialEq, Eq, Structural)]
pub enum GlyphAnswer {
    /// An atlas knows the glyph.
    Details(GlyphDetails),
    /// The picture of the glyph.
    Image(GlyphImage),
    /// A free place in the atlas.
    Space(u16, u16),
    /// The atlas has grown.
    Grown,
    /// The answer is no, or there is none.
    Nothing,
}

/// What is known of a glyph whose picture was just made.
pub open spec fn new_details(image: GlyphImage, place: Option<(u16, u16)>) -> GlyphDetails {
    GlyphDetails {
        width: image.width,
        height: image.height,
        gpu_cache: match place {
            Some(p) => GpuCacheStatus::InAtlas {
                x: p.0,
                y: p.1,
                content_type: image.content_type,
            },
            None => GpuCacheStatus::SkipRasterization,
        },
        top: image.top,
        left: image.left,
    }
}

impl GlyphSearch {
    /// What follows an answer. The mask atlas is asked first, then the colour
    /// atlas, then the picture is made; one without pixels is remembered by the
    /// colour atlas. An answer to something else changes nothing.
    pub open spec fn after(self, answer: GlyphAnswer) -> GlyphSearch {
        match (self, answer) {
            (GlyphSearch::AskMask, GlyphAnswer::Details(d)) => GlyphSearch::Known(
                ContentType::Mask,
                d,
            ),
            (GlyphSearch::AskMask, GlyphAnswer::Nothing) => GlyphSearch::AskColor,
            (GlyphSearch::AskColor, GlyphAnswer::Details(d)) => GlyphSearch::Known(
                ContentType::Color,
                d,
            ),
            (GlyphSearch::AskColor, GlyphAnswer::Nothing) => GlyphSearch::AskImage,
            (GlyphSearch::AskImage, GlyphAnswer::Nothing) => GlyphSearch::NoGlyph,
            (GlyphSearch::AskImage, GlyphAnswer::Image(image)) => if image.width > 0
                && image.height > 0 {
                GlyphSearch::AskSpace(image)
            } else {
                GlyphSearch::Remember(ContentType::Color, new_details(image, None))
            },
            (GlyphSearch::AskSpace(image), GlyphAnswer::Space(x, y)) => GlyphSearch::Remember(
                image.content_type,
                new_details(image, Some((x, y))),
            ),
            (GlyphSearch::AskSpace(image), GlyphAnswer::Nothing) => GlyphSearch::AskGrowth(image),
            (GlyphSearch::AskGrowth(image), GlyphAnswer::Grown) => GlyphSearch::AskSpace(image),
            (GlyphSearch::AskGrowth(image), GlyphAnswer::Nothing) => GlyphSearch::AtlasFull,
            _ => self,
        }
    }

    /// The first question.
    pub fn new() -> (r: GlyphSearch)
        ensures
            r == GlyphSearch::AskMask,
    {
        GlyphSearch::AskMask
    }

    /// What follows an answer.
    pub fn answer(self, answer: GlyphAnswer) -> (r: GlyphSearch)
        ensures
            r == self.after(answer),
    {
        match (self, answer) {
            (GlyphSearch::AskMask, GlyphAnswer::Details(d)) => GlyphSearch::Known(
                ContentType::Mask,
                d,
            ),
            (GlyphSearch::AskMask, GlyphAnswer::Nothing) => GlyphSearch::AskColor,
            (GlyphSearch::AskColor, GlyphAnswer::Details(d)) => GlyphSearch::Known(
                ContentType::Color,
                d,
            ),
            (GlyphSearch::AskColor, GlyphAnswer::Nothing) => GlyphSearch::AskImage,
            (GlyphSearch::AskImage, GlyphAnswer::Nothing) => GlyphSearch::NoGlyph,
            (GlyphSearch::AskImage, GlyphAnswer::Image(image)) => {
                if image.width > 0 && image.height > 0 {
                    GlyphSearch::AskSpace(image)
                } else {
                    GlyphSearch::Remember(
                        ContentType::Color,
                        GlyphDetails {
                            width: image.width,
                            height: image.height,
                            gpu_cache: GpuCacheStatus::SkipRasterization,
                            top: image.top,
                            left: image.left,
                        },
                    )
                }
            },
            (GlyphSearch::AskSpace(image), GlyphAnswer::Space(x, y)) => GlyphSearch::Remember(
                image.content_type,
                GlyphDetails {
                    width: image.width,
                    height: image.height,
                    gpu_cache: GpuCacheStatus::InAtlas { x, y, content_type: image.content_type },
                    top: image.top,
                    left: image.left,
                },
            ),
            (GlyphSearch::AskSpace(image), GlyphAnswer::Nothing) => GlyphSearch::AskGrowth(image),
            (GlyphSearch::AskGrowth(image), GlyphAnswer::Grown) => GlyphSearch::AskSpace(image),
            (GlyphSearch::AskGrowth(image), GlyphAnswer::Nothing) => GlyphSearch::AtlasFull,
            _ => self,
        }
    }
}

/// What a search has come to after some answers.
pub open spec fn searched(answers: Seq<GlyphAnswer>) -> GlyphSearch
    decreases answers.len(),
{
    if answers.len() == 0 {
        GlyphSearch::AskMask
    } else {
        searched(answers.drop_last()).after(answers.last())
    }
}

/// Law: space is asked for only for pictures with pixels, and what an atlas is
/// to remember has a place in that atlas exactly if it has pixels.
pub proof fn lemma_search_places_pixels(answers: Seq<GlyphAnswer>)
    ensures
        searched(answers) matches GlyphSearch::AskSpace(image) ==> image.width > 0 && image.height
            > 0,
        searched(answers) matches GlyphSearch::AskGrowth(image) ==> image.width > 0 && image.height
            > 0,
        searched(answers) matches GlyphSearch::Remember(atlas, d) ==> {
            &&& d.gpu_cache is SkipRasterization <==> d.width == 0 || d.height == 0
            &&& d.gpu_cache matches GpuCacheStatus::InAtlas { content_type, .. } ==> content_type
                == atlas
            &&& d.gpu_cache is SkipRasterization ==> atlas == ContentType::Color
        },
    decreases answers.len(),
{
    if answers.len() > 0 {
        lemma_search_places_pixels(answers.drop_last());
    }
}

// ---------------------------------------------------------------------------
// Placing a glyph
// ---------------------------------------------------------------------------

/// A glyph as the GPU is given it, 48 bytes.
#[derive(Clone, Copy, Debug, PartialEq, Eq)]
pub struct GlyphToRender {
    pub pos: [i32; 2],
    pub dim: [u16; 2],
    pub uv: [u16; 2],
    pub color: u32,
    pub content_type_with_srgb: [u16; 2],
    pub depth: F32Bits,
    pub transform_index: u32,
    pub base_uv_rect: [F32Bits; 4],
}

/// The bytes of a [`GlyphToRender`].
pub const GLYPH_BYTES: u64 = 48;

/// Where a glyph stands and how it is drawn. `x` and `y` are the pen, and
/// `line` the pixels from there to the baseline.
#[derive(Clone, Copy, Debug, PartialEq, Eq)]
pub struct GlyphMetadata {
    pub x: i32,
    pub y: i32,
    pub line: i32,
    pub color: u32,
    pub depth: F32Bits,
    pub transform_index: u32,
    pub base_uv_rect: [F32Bits; 4],
}

/// The box of a glyph along one axis: its first pixel, its size and its first
/// texel.
pub struct Span {
    pub start: int,
    pub size: int,
    pub texel: int,
}

impl Span {
    /// Whether the span lies wholly before or behind the bounds.
    pub open spec fn outside(self, b: Bounds) -> bool {
        self.start > b.max || self.start + self.size < b.min
    }

    /// The span cut at both ends.
    pub open spec fn clipped(self, b: Bounds) -> Span {
        let cut = if self.start < b.min {
            Span {
                start: b.min as int,
                size: self.start + self.size - b.min,
                texel: self.texel + (b.min - self.start),
            }
        } else {
            self
        };
        if cut.start + cut.size > b.max {
            Span { size: b.max - cut.start, ..cut }
        } else {
            cut
        }
    }
}

/// The box of a glyph from left to right.
pub open spec fn x_span(m: GlyphMetadata, d: GlyphDetails, atlas_x: u16) -> Span {
    Span { start: m.x + d.left, size: d.width as int, texel: atlas_x as int }
}

/// The box of a glyph from top to bottom.
pub open spec fn y_span(m: GlyphMetadata, d: GlyphDetails, atlas_y: u16) -> Span {
    Span { start: m.line + m.y - d.top, size: d.height as int, texel: atlas_y as int }
}

/// Whether all numbers of a box are pixels and texels.
pub open spec fn span_fits(s: Span, b: Bounds) -> bool {
    &&& i32::MIN <= s.start <= i32::MAX
    &&& s.start + s.size <= i32::MAX
    &&& !s.outside(b) ==> s.clipped(b).texel <= u16::MAX
    &&& !s.outside(b) ==> i32::MIN <= s.clipped(b).size
}

/// Law: clipping to bounds in ascending order leaves the pixels that lie in
/// both, each with the texel that it had.
pub proof fn lemma_clipping_keeps_texels(s: Span, b: Bounds, p: int)
    requires
        s.size >= 0,
        b.min <= b.max,
        !s.outside(b),
    ensures
        ({
            let c = s.clipped(b);
            &&& c.size >= 0
            &&& c.start <= p < c.start + c.size <==> s.start <= p < s.start + s.size && b.min <= p
                < b.max
            &&& c.texel + (p - c.start) == s.texel + (p - s.start)
        }),
{
}

/// A span on the machine: start, size, and texel.
fn clip(start: i32, size: i32, texel: u16, b: Bounds) -> (r: Option<(i32, i32, u16)>)
    requires
        0 <= size <= u16::MAX,
        span_fits((Span { start: start as int, size: size as int, texel: texel as int }), b),
    ensures
        ({
            let s = Span { start: start as int, size: size as int, texel: texel as int };
            &&& r is None <==> s.outside(b)
            &&& r matches Some(c) ==> c.0 == s.clipped(b).start && c.1 == s.clipped(b).size && c.2
                == s.clipped(b).texel
        }),
{
    let end: i32 = start + size;
    if start > b.max || end < b.min {
        return None;
    }
    let mut at: i32 = start;
    let mut left: i32 = size;
    let mut tex: u16 = texel;
    if at < b.min {
        let shift: i32 = b.min - at;
        at = b.min;
        left = end - b.min;
        tex = tex + shift as u16;
    }
    if at + left > b.max {
        left = b.max - at;
    }
    Some((at, left, tex))
}

/// The glyph as the GPU is given it.
pub open spec fn glyph_of(
    m: GlyphMetadata,
    x: Span,
    y: Span,
    content_type: ContentType,
    mode: ColorMode,
) -> GlyphToRender {
    GlyphToRender {
        pos: [x.start as i32, y.start as i32],
        dim: [x.size as u16, y.size as u16],
        uv: [x.texel as u16, y.texel as u16],
        color: m.color,
        content_type_with_srgb: [
            match content_type {
                ContentType::Color => 0u16,
                ContentType::Mask => 1u16,
            },
            match mode {
                ColorMode::Accurate => 1u16,
                ColorMode::Web => 0u16,
            },
        ],
        depth: m.depth,
        transform_index: m.transform_index,
        base_uv_rect: m.base_uv_rect,
    }
}

/// Whether all numbers of a glyph are pixels and texels.
pub open spec fn placeable(m: GlyphMetadata, d: GlyphDetails, b: GlyphBounds) -> bool {
    &&& i32::MIN <= m.line + m.y <= i32::MAX
    &&& i32::MIN <= m.x + d.left <= i32::MAX
    &&& i32::MIN <= m.line + m.y - d.top <= i32::MAX
    &&& d.gpu_cache matches GpuCacheStatus::InAtlas { x, y, content_type } ==> span_fits(
        x_span(m, d, x),
        b.x,
    ) && span_fits(y_span(m, d, y), b.y)
}

/// What is drawn of a glyph: its clipped box. That is nothing of a glyph without
/// pixels, nor of one that lies outside.
pub open spec fn placed(
    m: GlyphMetadata,
    d: GlyphDetails,
    b: GlyphBounds,
    mode: ColorMode,
) -> Option<GlyphToRender> {
    match d.gpu_cache {
        GpuCacheStatus::SkipRasterization => None,
        GpuCacheStatus::InAtlas { x, y, content_type } => {
            let xs = x_span(m, d, x);
            let ys = y_span(m, d, y);
            if xs.outside(b.x) || ys.outside(b.y) {
                None
            } else {
                Some(glyph_of(m, xs.clipped(b.x), ys.clipped(b.y), content_type, mode))
            }
        },
    }
}

/// Clips a glyph.
pub fn place_glyph(m: GlyphMetadata, d: GlyphDetails, b: GlyphBounds, mode: ColorMode) -> (r: Option<
    GlyphToRender,
>)
    requires
        placeable(m, d, b),
    ensures
        r == placed(m, d, b, mode),
{
    match d.gpu_cache {
        GpuCacheStatus::SkipRasterization => None,
        GpuCacheStatus::InAtlas { x: atlas_x, y: atlas_y, content_type } => {
            let x: i32 = m.x + d.left as i32;
            let y: i32 = m.line + m.y - d.top as i32;
            let cut_x = match clip(x, d.width as i32, atlas_x, b.x) {
                Some(c) => c,
                None => return None,
            };
            let cut_y = match clip(y, d.height as i32, atlas_y, b.y) {
                Some(c) => c,
                None => return None,
            };
            let kind: u16 = match content_type {
                ContentType::Color => 0,
                ContentType::Mask => 1,
            };
            let conversion: u16 = match mode {
                ColorMode::Accurate => 1,
                ColorMode::Web => 0,
            };
            Some(
                GlyphToRender {
                    pos: [cut_x.0, cut_y.0],
                    dim: [cut_x.1 as u16, cut_y.1 as u16],
                    uv: [cut_x.2, cut_y.2],
                    color: m.color,
                    content_type_with_srgb: [kind, conversion],
                    depth: m.depth,
                    transform_index: m.transform_index,
                    base_uv_rect: m.base_uv_rect,
                },
            )
        },
    }
}

} // verus!
