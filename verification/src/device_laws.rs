//! What holds of everything that is handed to the device or kept for it: bytes,
//! layouts, pipelines, attachments, buffers and numbered things.

use vstd::prelude::*;
use crate::batch::TextureSegment;
use crate::bindings::{
    camera_bindings, custom_material_bindings, engine_storage_bindings, glyph_atlas_bindings,
    glyph_uniform_bindings, texture_bindings, Binding, BindingKind,
};
use crate::color::Color;
use crate::deferred::{DeferredTask, DeferredTaskKind};
use crate::dpi;
use crate::dpi::{
    dim_to_winit, dp, pixel_of, pp_to_phys, px, to_pixel_pos, to_pixel_size, Dim, Dp, Pixel, PixelPos,
    PixelSize, Pp, Px, ToPx,
};
use crate::error::VireoError;
use crate::flatten;
use crate::flatten::DrawEvent;
use crate::frame::ShapeInfo;
use crate::geometry::{Pos, Rect, Transform, UvRect};
use crate::glyph::GlyphToRender;
use crate::gpu;
use crate::gpu::{material_pipeline_key, usable_sample_counts, GpuContext};
use crate::icon::{pixels_of, IconPixels};
use crate::pass;
use crate::pass::{EventInfo, PixelBox};
use crate::pipeline::{folded_format_bits, material_format_key, MaterialTarget, ShapeVertexLayout};
use crate::pipeline_plan::{
    material_pipeline_request, plan_geo_instance_pipeline, plan_instance_pipeline,
    plan_material_pipeline, plan_pipeline, plan_stencil_pipeline, MaterialPlan, MaterialStencil,
    PipelineCache, PipelinePlan, PipelineSlot, ShaderModule, StencilPass, StencilPlan,
    VertexStages,
};
use crate::renderer;
use crate::renderer::{
    event_infos, subtree_box, AttachmentPlan, BufferKind, FramePlan, Renderer,
};
use crate::resources::Registry;
use crate::stencil::StencilUse;
use crate::upload;
use crate::upload::{buffer_bytes, glyph_words, instance_words, vertex_words};
use crate::vertex::{AttributeFormat, F32Bits, F64Bits, ShapeInstance, Vertex, VertexAttribute};

verus! {

// ---------------------------------------------------------------------------
// Bytes
// ---------------------------------------------------------------------------

/// Law: vertex `i` stands behind those before it, seventeen words each, and the
/// attributes of the vertex layout read its parts: position, texture coordinates,
/// colour, parameters, type, feather, extra parameters and row.
pub proof fn lemma_attributes_read_vertex(
    vertices: Vec<Vertex>,
    words: Vec<u32>,
    desc: [VertexAttribute; 8],
    i: int,
)
    requires
        call_ensures(vertex_words, (&vertices,), words),
        call_ensures(Vertex::desc, (), desc),
        0 <= i < vertices@.len(),
    ensures
        words@.len() == 17 * vertices@.len(),
        ({
            let v = vertices@[i];
            let at = |k: int| 17 * i + desc@[k].offset as int / 4;
            &&& words@[at(0)] == v.position@[0] && words@[at(0) + 1] == v.position@[1]
            &&& words@[at(1)] == v.uv@[0] && words@[at(1) + 1] == v.uv@[1]
            &&& words@[at(2)] == v.color@[0] && words@[at(2) + 1] == v.color@[1]
            &&& words@[at(2) + 2] == v.color@[2] && words@[at(2) + 3] == v.color@[3]
            &&& words@[at(3)] == v.sdf_params@[0] && words@[at(3) + 1] == v.sdf_params@[1]
            &&& words@[at(3) + 2] == v.sdf_params@[2] && words@[at(3) + 3] == v.sdf_params@[3]
            &&& words@[at(4)] == v.sdf_type
            &&& words@[at(5)] == v.sdf_feather
            &&& words@[at(6)] == v.sdf_extra@[0] && words@[at(6) + 1] == v.sdf_extra@[1]
            &&& words@[at(7)] == v.transform_index
        }),
        desc@[0].format == AttributeFormat::Float32x2,
        desc@[1].format == AttributeFormat::Float32x2,
        desc@[2].format == AttributeFormat::Float32x4,
        desc@[3].format == AttributeFormat::Float32x4,
        desc@[4].format == AttributeFormat::Uint32,
        desc@[5].format == AttributeFormat::Float32,
        desc@[6].format == AttributeFormat::Float32x2,
        desc@[7].format == AttributeFormat::Uint32,
        forall|k: int| 0 <= k < 8 ==> (#[trigger] desc@[k]).shader_location == k,
{
    let records = upload::vertex_records(vertices@);
    assert forall|j: int| 0 <= j < records.len() implies (#[trigger] records[j]).len() == 17 by {
        assert(records[j] == vertices@[j].words());
    }
    let v = vertices@[i];
    assert(records[i] == v.words());
    assert forall|k: int| 0 <= k < 17 implies words@[17 * i + k] == #[trigger] v.words()[k] by {
        upload::lemma_records_are_evenly_spaced(records, 17, i, k);
    }
    upload::lemma_records_are_evenly_spaced(records, 17, i, 0);
    let formats = desc@.map_values(|a: VertexAttribute| a.format);
    assert(formats[0] == desc@[0].format && formats[1] == desc@[1].format && formats[2]
        == desc@[2].format && formats[3] == desc@[3].format && formats[4] == desc@[4].format
        && formats[5] == desc@[5].format && formats[6] == desc@[6].format && formats[7]
        == desc@[7].format);
    assert(desc@[0int + 1].offset == 8);
    assert(desc@[1int + 1].offset == 16);
    assert(desc@[2int + 1].offset == 32);
    assert(desc@[3int + 1].offset == 48);
    assert(desc@[4int + 1].offset == 52);
    assert(desc@[5int + 1].offset == 56);
    assert(desc@[6int + 1].offset == 64);
    let w = v.words();
    assert(w[0] == v.position@[0] && w[1] == v.position@[1] && w[2] == v.uv@[0] && w[3] == v.uv@[1]
        && w[4] == v.color@[0] && w[5] == v.color@[1] && w[6] == v.color@[2] && w[7] == v.color@[3]);
    assert(w[8] == v.sdf_params@[0] && w[9] == v.sdf_params@[1] && w[10] == v.sdf_params@[2]
        && w[11] == v.sdf_params@[3] && w[12] == v.sdf_type && w[13] == v.sdf_feather && w[14]
        == v.sdf_extra@[0] && w[15] == v.sdf_extra@[1] && w[16] == v.transform_index);
}

/// Law: instance `i` stands behind those before it, twenty-six words each: bounds,
/// texture bounds, texture part, colour, parameters, extra parameters, type,
/// feather, row and a word that is zero.
pub proof fn lemma_instance_words(instances: Vec<ShapeInstance>, words: Vec<u32>, i: int, c: int)
    requires
        call_ensures(instance_words, (&instances,), words),
        0 <= i < instances@.len(),
        0 <= c < 4,
    ensures
        words@.len() == 26 * instances@.len(),
        ({
            let s = instances@[i];
            let at = 26 * i;
            &&& words@[at + c] == s.bounds@[c]
            &&& words@[at + 4 + c] == s.uv_bounds@[c]
            &&& words@[at + 8 + c] == s.uv_rect@[c]
            &&& words@[at + 12 + c] == s.color@[c]
            &&& words@[at + 16 + c] == s.sdf_params@[c]
            &&& words@[at + 20] == s.sdf_extra@[0] && words@[at + 21] == s.sdf_extra@[1]
            &&& words@[at + 22] == s.sdf_type && words@[at + 23] == s.sdf_feather
            &&& words@[at + 24] == s.transform_index && words@[at + 25] == 0
        }),
{
    let records = upload::instance_records(instances@);
    assert forall|j: int| 0 <= j < records.len() implies (#[trigger] records[j]).len() == 26 by {
        assert(records[j] == instances@[j].words());
    }
    let s = instances@[i];
    let w = s.words();
    assert(records[i] == w);
    assert forall|k: int| 0 <= k < 26 implies words@[26 * i + k] == #[trigger] w[k] by {
        upload::lemma_records_are_evenly_spaced(records, 26, i, k);
    }
    upload::lemma_records_are_evenly_spaced(records, 26, i, 0);
    assert(w[c] == s.bounds@[c] && w[4 + c] == s.uv_bounds@[c] && w[8 + c] == s.uv_rect@[c] && w[12
        + c] == s.color@[c] && w[16 + c] == s.sdf_params@[c]);
    assert(w[20] == s.sdf_extra@[0] && w[21] == s.sdf_extra@[1] && w[22] == s.sdf_type && w[23]
        == s.sdf_feather && w[24] == s.transform_index && w[25] == 0);
}

/// Law: glyph `i` stands behind those before it, twelve words each: place, size,
/// texture place, colour, atlas and colour space, depth, row and texture part; two
/// small numbers share a word, the first in its lower half.
pub proof fn lemma_glyph_words(glyphs: Vec<GlyphToRender>, words: Vec<u32>, i: int, c: int)
    requires
        call_ensures(glyph_words, (&glyphs,), words),
        0 <= i < glyphs@.len(),
        0 <= c < 4,
    ensures
        words@.len() == 12 * glyphs@.len(),
        ({
            let g = glyphs@[i];
            let at = 12 * i;
            &&& words@[at] == g.pos@[0] as u32 && words@[at + 1] == g.pos@[1] as u32
            &&& words@[at + 2] % 65536 == g.dim@[0] && words@[at + 2] / 65536 == g.dim@[1]
            &&& words@[at + 3] % 65536 == g.uv@[0] && words@[at + 3] / 65536 == g.uv@[1]
            &&& words@[at + 4] == g.color
            &&& words@[at + 5] % 65536 == g.content_type_with_srgb@[0]
            &&& words@[at + 5] / 65536 == g.content_type_with_srgb@[1]
            &&& words@[at + 6] == g.depth && words@[at + 7] == g.transform_index
            &&& words@[at + 8 + c] == g.base_uv_rect@[c]
        }),
{
    let records = upload::glyph_records(glyphs@);
    assert forall|j: int| 0 <= j < records.len() implies (#[trigger] records[j]).len() == 12 by {
        assert(records[j] == glyphs@[j].words());
    }
    let g = glyphs@[i];
    let w = g.words();
    assert(records[i] == w);
    assert forall|k: int| 0 <= k < 12 implies words@[12 * i + k] == #[trigger] w[k] by {
        upload::lemma_records_are_evenly_spaced(records, 12, i, k);
    }
    upload::lemma_records_are_evenly_spaced(records, 12, i, 0);
    assert(w[0] == g.pos@[0] as u32 && w[1] == g.pos@[1] as u32 && w[4] == g.color && w[6]
        == g.depth && w[7] == g.transform_index && w[8 + c] == g.base_uv_rect@[c]);
    assert(w[2] == upload::pair_word(g.dim@[0], g.dim@[1]));
    assert(w[3] == upload::pair_word(g.uv@[0], g.uv@[1]));
    assert(w[5] == upload::pair_word(
        g.content_type_with_srgb@[0],
        g.content_type_with_srgb@[1],
    ));
}

/// Law: the bytes of words make up the words again, with either the lowest or the
/// highest byte of each first, and with the same one for all.
pub proof fn lemma_bytes_make_up_words(words: Vec<u32>, bytes: Vec<u8>, i: int, j: int)
    requires
        call_ensures(buffer_bytes, (&words,), bytes),
        0 <= i < words@.len(),
        0 <= j < words@.len(),
    ensures
        bytes@.len() == 4 * words@.len(),
        ({
            let low = |k: int|
                bytes@[4 * k] + 256 * bytes@[4 * k + 1] + 65536 * bytes@[4 * k + 2] + 16777216
                    * bytes@[4 * k + 3];
            let high = |k: int|
                bytes@[4 * k + 3] + 256 * bytes@[4 * k + 2] + 65536 * bytes@[4 * k + 1] + 16777216
                    * bytes@[4 * k];
            ||| words@[i] == low(i) && words@[j] == low(j)
            ||| words@[i] == high(i) && words@[j] == high(j)
        }),
{
    lemma_word_of_bytes(words@, bytes@, i);
    lemma_word_of_bytes(words@, bytes@, j);
}

proof fn lemma_word_is_its_bytes(w: u32)
    ensures
        w == upload::byte_of(w, 0) + 256 * upload::byte_of(w, 1) + 65536 * upload::byte_of(w, 2)
            + 16777216 * upload::byte_of(w, 3),
{
    let n = w as int;
    assert(n == n % 256 + 256 * (n / 256));
    let a = n / 256;
    assert(a == a % 256 + 256 * (a / 256));
    assert(n / 65536 == a / 256);
    let b = n / 65536;
    assert(b == b % 256 + 256 * (b / 256));
    assert(n / 16777216 == b / 256);
}

proof fn lemma_word_of_bytes(words: Seq<u32>, bytes: Seq<u8>, i: int)
    requires
        0 <= i < words.len(),
    ensures
        upload::lowest_first(words, bytes) ==> words[i] == bytes[4 * i] + 256 * bytes[4 * i + 1]
            + 65536 * bytes[4 * i + 2] + 16777216 * bytes[4 * i + 3],
        upload::highest_first(words, bytes) ==> words[i] == bytes[4 * i + 3] + 256 * bytes[4 * i
            + 2] + 65536 * bytes[4 * i + 1] + 16777216 * bytes[4 * i],
{
    lemma_word_is_its_bytes(words[i]);
    let w = words[i];
    let (b0, b1) = (upload::byte_of(w, 0), upload::byte_of(w, 1));
    let (b2, b3) = (upload::byte_of(w, 2), upload::byte_of(w, 3));
    if upload::lowest_first(words, bytes) {
        assert(bytes[4 * i + 0] == b0);
        assert(bytes[4 * i + 1] == b1);
        assert(bytes[4 * i + 2] == b2);
        assert(bytes[4 * i + 3] == b3);
    }
    if upload::highest_first(words, bytes) {
        assert(bytes[4 * i + 0] == b3);
        assert(bytes[4 * i + 1] == b2);
        assert(bytes[4 * i + 2] == b1);
        assert(bytes[4 * i + 3] == b0);
    }
}

/// Law: bytes are a picture exactly if there are four for each of its pixels, and
/// they are its pixels as they are.
pub proof fn lemma_picture_has_its_pixels(
    rgba: Vec<u8>,
    width: u32,
    height: u32,
    r: Option<IconPixels>,
)
    requires
        call_ensures(pixels_of, (rgba, width, height), r),
    ensures
        r is Some <==> rgba@.len() == 4 * width * height,
        r is Some ==> r->0.rgba@ == rgba@ && r->0.width == width && r->0.height == height,
{
}

// ---------------------------------------------------------------------------
// Places, sizes and pixels
// ---------------------------------------------------------------------------

/// Law: rectangles and positions have the parts that they are given.
pub proof fn lemma_rectangles_have_their_parts(
    x: F32Bits,
    y: F32Bits,
    w: F32Bits,
    h: F32Bits,
    r: Rect,
    p: Pos,
    edge: F32Bits,
)
    ensures
        call_ensures(Rect::new, (x, y, w, h), r) ==> r.x == x && r.y == y && r.w == w && r.h == h,
        call_ensures(Rect::left, (&r,), edge) ==> edge == r.x,
        call_ensures(Rect::top, (&r,), edge) ==> edge == r.y,
        call_ensures(Pos::new, (x, y), p) ==> p.x == x && p.y == y,
{
}

/// Law: a number of physical pixels stays as it is; one of logical pixels is
/// multiplied, by the scale that overrides, else by the system's, else, where that
/// is not positive, by one.
pub proof fn lemma_pixels_are_scaled<F: Fn(F64Bits, F64Bits) -> F64Bits>(
    n: F64Bits,
    given: Option<F64Bits>,
    system: F64Bits,
    times: F,
    r: F64Bits,
)
    ensures
        call_ensures(pp_to_phys::<F>, (Pp::Px(Px(n)), given, system, &times), r) ==> r == n,
        call_ensures(pp_to_phys::<F>, (Pp::Dp(Dp(n)), given, system, &times), r) ==> {
            let scale = match given {
                Some(s) => s,
                None => system,
            };
            &&& 0 < scale <= 0x7ff0_0000_0000_0000 ==> call_ensures(times, (n, scale), r)
            &&& scale == 0 || scale > 0x7ff0_0000_0000_0000 ==> call_ensures(
                times,
                (n, 0x3ff0_0000_0000_0000),
                r,
            )
        },
{
}

/// Law: two logical numbers stay logical, each on its axis, unless a positive scale
/// overrides; else both are physical, each on its axis.
pub proof fn lemma_axes_stay_apart<F: Fn(F64Bits, F64Bits) -> F64Bits>(
    x: F64Bits,
    y: F64Bits,
    d: F64Bits,
    system: F64Bits,
    times: F,
    r: Dim,
)
    ensures
        call_ensures(
            dim_to_winit::<F>,
            (Pp::Dp(Dp(x)), Pp::Dp(Dp(y)), None::<F64Bits>, system, &times),
            r,
        ) ==> r == Dim::Logical(x, y),
        call_ensures(
            dim_to_winit::<F>,
            (Pp::Dp(Dp(x)), Pp::Dp(Dp(y)), Some(d), system, &times),
            r,
        ) && 0 < d <= 0x7ff0_0000_0000_0000 ==> r is Physical && call_ensures(
            times,
            (x, d),
            r->Physical_0,
        ) && call_ensures(times, (y, d), r->Physical_1),
        call_ensures(
            dim_to_winit::<F>,
            (Pp::Px(Px(x)), Pp::Px(Px(y)), Some(d), system, &times),
            r,
        ) ==> r == Dim::Physical(x, y),
        call_ensures(
            dim_to_winit::<F>,
            (Pp::Px(Px(x)), Pp::Dp(Dp(y)), Some(d), system, &times),
            r,
        ) && 0 < d <= 0x7ff0_0000_0000_0000 ==> r is Physical && r->Physical_0 == x && call_ensures(
            times,
            (y, d),
            r->Physical_1,
        ),
        call_ensures(
            dim_to_winit::<F>,
            (Pp::Dp(Dp(x)), Pp::Px(Px(y)), Some(d), system, &times),
            r,
        ) && 0 < d <= 0x7ff0_0000_0000_0000 ==> r is Physical && r->Physical_1 == y && call_ensures(
            times,
            (x, d),
            r->Physical_0,
        ),
{
}

/// Law: a physical place or size is known in both kinds of pixels, each axis of its
/// own: the physical number as it is, the logical one divided by the scale if that
/// is positive.
pub proof fn lemma_places_are_known_in_both<F: Fn(F64Bits, F64Bits) -> F64Bits>(
    x: F64Bits,
    y: F64Bits,
    scale: F64Bits,
    over: F,
    p: PixelPos,
    s: PixelSize,
    n: (F64Bits, F64Bits),
)
    requires
        call_ensures(to_pixel_pos::<F>, (x, y, scale, &over), p),
        call_ensures(to_pixel_size::<F>, (x, y, scale, &over), s),
    ensures
        call_ensures(PixelPos::physical, (&p,), n) ==> n == (x, y),
        call_ensures(PixelSize::physical, (&s,), n) ==> n == (x, y),
        0 < scale <= 0x7ff0_0000_0000_0000 && call_ensures(PixelPos::logical, (&p,), n)
            ==> call_ensures(over, (x, scale), n.0) && call_ensures(over, (y, scale), n.1),
        0 < scale <= 0x7ff0_0000_0000_0000 && call_ensures(PixelSize::logical, (&s,), n)
            ==> call_ensures(over, (x, scale), n.0) && call_ensures(over, (y, scale), n.1),
        scale == 0 && call_ensures(PixelPos::logical, (&p,), n) ==> n == (x, y),
        scale == 0 && call_ensures(PixelSize::logical, (&s,), n) ==> n == (x, y),
{
}

/// Law: numbers of pixels are of the kind and size that they are made with.
pub proof fn lemma_kinds_of_pixels(n: F64Bits, p: Px, d: Dp)
    ensures
        call_ensures(px, (n,), p) ==> p.0 == n,
        call_ensures(dp, (n,), d) ==> d.0 == n,
        Px(n).physical() && !Dp(n).physical(),
        Pp::Px(Px(n)).physical() && !Pp::Dp(Dp(n)).physical(),
        Px(n).number() == n && Dp(n).number() == n,
        Pp::Px(Px(n)).number() == n && Pp::Dp(Dp(n)).number() == n,
{
}

// ---------------------------------------------------------------------------
// Time, numbered things, errors
// ---------------------------------------------------------------------------

/// Law: a task is done as it was given, not before its tick or moment and from
/// then on; the other clock does not matter.
pub proof fn lemma_tasks_wait_for_their_time<F>(
    target: u64,
    wakeup: u128,
    f: F,
    task: DeferredTask<F>,
    tick: u64,
    now: u128,
    r: bool,
)
    ensures
        call_ensures(
            DeferredTask::<F>::new,
            (DeferredTaskKind::AfterTicks(target), f),
            task,
        ) && call_ensures(DeferredTask::<F>::is_ready, (&task, tick, now), r) ==> (r <==> target
            <= tick) && task.f == f,
        call_ensures(
            DeferredTask::<F>::new,
            (DeferredTaskKind::AfterSecs(wakeup), f),
            task,
        ) && call_ensures(DeferredTask::<F>::is_ready, (&task, tick, now), r) ==> (r <==> wakeup
            <= now) && task.f == f,
{
}

/// Law: a thing that was added is found by the number that it got, and so is
/// everything that was there before; other numbers are refused with that number.
pub proof fn lemma_added_thing_is_found<T>(
    things: &mut Registry<T>,
    item: T,
    index: usize,
    other: usize,
    was: Result<&T, VireoError>,
    now: Result<&T, VireoError>,
)
    requires
        call_ensures(Registry::<T>::add, (things, item), index),
        call_ensures(Registry::<T>::texture, (&*old(things), other), was),
    ensures
        call_ensures(Registry::<T>::texture, (&*final(things), index), now) ==> now == Ok::<
            &T,
            VireoError,
        >(&item),
        call_ensures(Registry::<T>::offscreen_ref, (&*final(things), index), now) ==> now == Ok::<
            &T,
            VireoError,
        >(&item),
        call_ensures(Registry::<T>::texture, (&*final(things), other), now) && was is Ok ==> now
            == was,
        call_ensures(Registry::<T>::texture, (&*final(things), other), now) && was is Err && other
            != index ==> now == Err::<&T, VireoError>(VireoError::TextureNotFound(other)),
        call_ensures(Registry::<T>::offscreen_ref, (&*final(things), other), now) && was is Err
            && other != index ==> now == Err::<&T, VireoError>(
            VireoError::OffscreenNotFound(other),
        ),
{
}

/// Law: there is nothing in a new registry.
pub proof fn lemma_new_registry_is_empty<T>(
    things: Registry<T>,
    i: usize,
    r: Result<&T, VireoError>,
)
    requires
        call_ensures(Registry::<T>::new, (), things),
    ensures
        call_ensures(Registry::<T>::texture, (&things, i), r) ==> r is Err,
        call_ensures(Registry::<T>::offscreen_ref, (&things, i), r) ==> r is Err,
{
}

/// Law: the message of an error names the thing by its number, in base ten, and any
/// other message is as it was given.
pub proof fn lemma_messages_name_the_number(e: VireoError, r: String)
    requires
        call_ensures(VireoError::message, (&e,), r),
    ensures
        e matches VireoError::WindowNotFound(n) ==> exists|from: int, to: int|
            0 <= from < to <= r@.len() && #[trigger] r@.subrange(from, to)
                == crate::decimal::decimal_text(n as nat),
        e matches VireoError::OffscreenNotFound(n) ==> exists|from: int, to: int|
            0 <= from < to <= r@.len() && #[trigger] r@.subrange(from, to)
                == crate::decimal::decimal_text(n as nat),
        e matches VireoError::TextureNotFound(n) ==> exists|from: int, to: int|
            0 <= from < to <= r@.len() && #[trigger] r@.subrange(from, to)
                == crate::decimal::decimal_text(n as nat),
        e matches VireoError::Other(m) ==> r@ == m@,
{
    let n: nat = match e {
        VireoError::WindowNotFound(n) => n as nat,
        VireoError::OffscreenNotFound(n) => n as nat,
        VireoError::TextureNotFound(n) => n as nat,
        VireoError::Other(_) => 0,
    };
    crate::decimal::lemma_decimal_reads_back(n);
    let digits = crate::decimal::decimal_text(n);
    let head: Seq<char> = match e {
        VireoError::WindowNotFound(_) => "window not found (index "@,
        VireoError::OffscreenNotFound(_) => "offscreen canvas not found (index "@,
        _ => "texture not found (index "@,
    };
    if !(e is Other) {
        assert(r@.subrange(head.len() as int, (head.len() + digits.len()) as int) =~= digits);
    }
}

// ---------------------------------------------------------------------------
// Layouts
// ---------------------------------------------------------------------------

/// Law: the entries of every bind group are numbered in order, and no stage sees
/// what it does not read: the camera is for both stages; textures and samplers of
/// shapes are for fragments; transforms are for vertices and edges for fragments; a
/// material has a buffer for both and four textures, each with its sampler.
pub proof fn lemma_groups_bind_what_is_read(
    camera: Vec<Binding>,
    texture: Vec<Binding>,
    storage: Vec<Binding>,
    material: Vec<Binding>,
    i: int,
)
    requires
        call_ensures(camera_bindings, (), camera),
        call_ensures(texture_bindings, (), texture),
        call_ensures(engine_storage_bindings, (), storage),
        call_ensures(custom_material_bindings, (), material),
        0 <= i < 4,
    ensures
        camera@.len() == 1 && camera@[0].vertex && camera@[0].fragment && camera@[0].binding == 0
            && camera@[0].kind == (BindingKind::Uniform { least: None }),
        texture@.len() == 2 && texture@[0].kind == BindingKind::Texture && texture@[1].kind
            == BindingKind::Sampler,
        !texture@[0].vertex && texture@[0].fragment && !texture@[1].vertex && texture@[1].fragment,
        texture@[0].binding == 0 && texture@[1].binding == 1,
        storage@.len() == 2 && storage@[0].kind == BindingKind::Storage && storage@[1].kind
            == BindingKind::Storage,
        storage@[0].vertex && !storage@[0].fragment && !storage@[1].vertex && storage@[1].fragment,
        storage@[0].binding == 0 && storage@[1].binding == 1,
        material@.len() == 9,
        material@[0].vertex && material@[0].fragment && material@[0].kind == BindingKind::Storage
            && material@[0].binding == 0,
        material@[2 * i + 1].kind == BindingKind::Texture && material@[2 * i + 2].kind
            == BindingKind::Sampler,
        material@[2 * i + 1].fragment && !material@[2 * i + 1].vertex && material@[2 * i
            + 2].fragment && !material@[2 * i + 2].vertex,
        material@[2 * i + 1].binding == 2 * i + 1 && material@[2 * i + 2].binding == 2 * i + 2,
{
}

/// Law: texts have both atlases for both stages, and the sampler and the batch's
/// texture with its own sampler for fragments; vertices read the screen's size,
/// with the size of what is there as its least if that is not nothing.
pub proof fn lemma_text_groups_bind_what_is_read(
    atlas: Vec<Binding>,
    uniform: Vec<Binding>,
    size: u64,
)
    requires
        call_ensures(glyph_atlas_bindings, (), atlas),
        call_ensures(glyph_uniform_bindings, (size,), uniform),
    ensures
        atlas@.len() == 5,
        forall|k: int| 0 <= k < 5 ==> (#[trigger] atlas@[k]).binding == k && atlas@[k].fragment,
        atlas@[0].vertex && atlas@[1].vertex && !atlas@[2].vertex && !atlas@[3].vertex
            && !atlas@[4].vertex,
        atlas@[0].kind == BindingKind::Texture && atlas@[1].kind == BindingKind::Texture
            && atlas@[3].kind == BindingKind::Texture,
        atlas@[2].kind == BindingKind::Sampler && atlas@[4].kind == BindingKind::Sampler,
        uniform@.len() == 1 && uniform@[0].vertex && !uniform@[0].fragment && uniform@[0].binding
            == 0,
        size > 0 ==> uniform@[0].kind == (BindingKind::Uniform { least: Some(size) }),
        size == 0 ==> uniform@[0].kind == (BindingKind::Uniform { least: None }),
{
    let a = atlas@;
    assert(a[0].binding == 0 && a[1].binding == 1 && a[2].binding == 2 && a[3].binding == 3
        && a[4].binding == 4);
    assert forall|k: int| 0 <= k < 5 implies (#[trigger] a[k]).binding == k && a[k].fragment by {
        assert(k == 0 || k == 1 || k == 2 || k == 3 || k == 4);
    }
}

// ---------------------------------------------------------------------------
// Pipelines
// ---------------------------------------------------------------------------

/// Whether a stencil state tests for equality.
pub open spec fn tests(s: StencilPlan) -> bool {
    s.equal && s.read_mask == 0xff
}

/// Law: a mesh pipeline with a stencil buffer tests it and raises it with 1 and 4,
/// lowers it with 3, keeps it with 2, and ignores it with 0; only 0, 1 and 2 show
/// colours. Without one it shows colours and knows nothing of it.
pub proof fn lemma_mesh_pipelines(
    n: u32,
    coverage: bool,
    ssaa: bool,
    geometry: bool,
    op: u32,
    bits: u32,
    plain: PipelinePlan,
    masked: PipelinePlan,
)
    requires
        op <= 4,
        call_ensures(plan_pipeline, (n, coverage, ssaa, geometry, bits), plain),
        call_ensures(plan_stencil_pipeline, (n, coverage, ssaa, geometry, op, bits), masked),
    ensures
        plain.stencil is None && plain.writes_color,
        masked.stencil is Some,
        op == 0 ==> !masked.stencil->0.equal && masked.stencil->0.pass == StencilPass::Keep,
        op == 1 || op == 4 ==> tests(masked.stencil->0) && masked.stencil->0.pass
            == StencilPass::Increment && masked.stencil->0.write_mask == 0xff,
        op == 2 ==> tests(masked.stencil->0) && masked.stencil->0.pass == StencilPass::Keep,
        op == 3 ==> tests(masked.stencil->0) && masked.stencil->0.pass == StencilPass::Decrement
            && masked.stencil->0.write_mask == 0xff,
        masked.writes_color <==> op <= 2,
        plain.layout == ShapeVertexLayout::Mesh && masked.layout == ShapeVertexLayout::Mesh,
        plain.sample_count == n && masked.sample_count == n,
        plain.alpha_to_coverage == coverage && masked.alpha_to_coverage == coverage,
        plain.module == masked.module,
        geometry ==> plain.module == ShaderModule::Geometry,
        !geometry && ssaa ==> plain.module == ShaderModule::Ssaa,
        !geometry && !ssaa ==> plain.module == ShaderModule::Plain,
{
}

/// Law: instances are drawn with their own shaders and layout and always show
/// colours; with a stencil buffer, 1 tests and raises it, 2 tests and keeps it, and
/// 0 lets all pass.
pub proof fn lemma_instance_pipelines(
    n: u32,
    coverage: bool,
    ssaa: bool,
    on: bool,
    op: u32,
    bits: u32,
    sdf: PipelinePlan,
    geo: PipelinePlan,
)
    requires
        op <= 2,
        call_ensures(plan_instance_pipeline, (n, coverage, ssaa, on, op, bits), sdf),
        call_ensures(plan_geo_instance_pipeline, (n, coverage, ssaa, on, op, bits), geo),
    ensures
        sdf.layout == ShapeVertexLayout::SdfInstance && geo.layout
            == ShapeVertexLayout::GeoInstance,
        geo.module == ShaderModule::GeoInstance,
        ssaa ==> sdf.module == ShaderModule::InstanceSsaa,
        !ssaa ==> sdf.module == ShaderModule::Instance,
        sdf.writes_color && geo.writes_color,
        sdf.stencil is Some <==> on,
        sdf.stencil == geo.stencil,
        on && op == 0 ==> !sdf.stencil->0.equal && sdf.stencil->0.pass == StencilPass::Keep,
        on && op == 1 ==> tests(sdf.stencil->0) && sdf.stencil->0.pass == StencilPass::Increment
            && sdf.stencil->0.write_mask == 0xff,
        on && op == 2 ==> tests(sdf.stencil->0) && sdf.stencil->0.pass == StencilPass::Keep,
        sdf.sample_count == n && geo.sample_count == n,
        sdf.alpha_to_coverage == coverage && geo.alpha_to_coverage == coverage,
{
}

/// Law: pipelines that differ in anything that they are asked for have different
/// keys, for sample counts below sixteen and twelve format bits.
pub proof fn lemma_different_pipelines_have_different_keys(
    n: u32,
    m: u32,
    a: bool,
    b: bool,
    s: bool,
    t: bool,
    g: bool,
    h: bool,
    o: u32,
    q: u32,
    bits: u32,
    p1: PipelinePlan,
    p2: PipelinePlan,
    m1: PipelinePlan,
    m2: PipelinePlan,
    i1: PipelinePlan,
    j2: PipelinePlan,
)
    requires
        n < 16,
        m < 16,
        bits < 4096,
        o <= 2,
        q <= 2,
        call_ensures(plan_pipeline, (n, a, s, g, bits), p1),
        call_ensures(plan_pipeline, (m, b, t, h, bits), p2),
        call_ensures(plan_stencil_pipeline, (n, a, s, g, o, bits), m1),
        call_ensures(plan_stencil_pipeline, (m, b, t, h, q, bits), m2),
        call_ensures(plan_instance_pipeline, (n, a, s, g, o, bits), i1),
        call_ensures(plan_geo_instance_pipeline, (m, b, t, h, q, bits), j2),
    ensures
        p1.key == p2.key <==> n == m && a == b && s == t && g == h,
        m1.key == m2.key <==> n == m && a == b && s == t && g == h && o == q,
        p1.key != m2.key,
        i1.key != j2.key,
        i1.key != p2.key && i1.key != m2.key,
        j2.key != p1.key && j2.key != m1.key,
{
    crate::pipeline::lemma_builtin_key_tells_apart(
        n, bits, a, s, g, false, 0, 0, m, bits, b, t, h, false, 0, 0,
    );
    crate::pipeline::lemma_builtin_key_tells_apart(
        n, bits, a, s, g, true, o, 0, m, bits, b, t, h, true, q, 0,
    );
    crate::pipeline::lemma_builtin_key_tells_apart(
        n, bits, a, s, g, false, 0, 0, m, bits, b, t, h, true, q, 0,
    );
    crate::pipeline::lemma_builtin_key_tells_apart(
        n, bits, a, s, false, g, o, 1, m, bits, b, t, false, h, q, 2,
    );
    crate::pipeline::lemma_builtin_key_tells_apart(
        n, bits, a, s, false, g, o, 1, m, bits, b, t, h, false, 0, 0,
    );
    crate::pipeline::lemma_builtin_key_tells_apart(
        n, bits, a, s, false, g, o, 1, m, bits, b, t, h, true, q, 0,
    );
    crate::pipeline::lemma_builtin_key_tells_apart(
        m, bits, b, t, false, h, q, 2, n, bits, a, s, g, false, 0, 0,
    );
    crate::pipeline::lemma_builtin_key_tells_apart(
        m, bits, b, t, false, h, q, 2, n, bits, a, s, g, true, o, 0,
    );
}

/// Law: twelve bits of a hash are its remainder, and a number of twelve bits is
/// kept.
pub proof fn lemma_format_bits_are_the_lowest(hash: u64, r: u32)
    requires
        call_ensures(folded_format_bits, (hash,), r),
    ensures
        r < 4096,
        hash < 4096 ==> r == hash,
        (hash - r) % 4096 == 0,
{
}

/// Law: a pipeline of a material uses the stencil buffer as a mesh does, and that
/// of its texts tests it with 2 and lets all pass else; only steps of a mask show no
/// colours. Its shape's vertex stage is the material's own if it has one, and then
/// it is never run once per sample; instances refuse it.
pub proof fn lemma_material_pipelines(
    source: &str,
    own: Option<&str>,
    stages: VertexStages,
    target: MaterialTarget,
    n: u32,
    coverage: bool,
    ssaa: bool,
    on: bool,
    op: u32,
    layout: ShapeVertexLayout,
    r: Result<MaterialPlan, String>,
)
    requires
        op <= 4,
        call_ensures(
            plan_material_pipeline,
            (source, own, &stages, target, n, coverage, ssaa, on, op, layout),
            r,
        ),
    ensures
        r is Err <==> own is Some && target == MaterialTarget::Shape && layout
            != ShapeVertexLayout::Mesh,
        r matches Ok(plan) ==> {
            &&& plan.target == target && plan.layout == layout && plan.sample_count == n
                && plan.alpha_to_coverage == coverage
            &&& !on <==> plan.stencil == MaterialStencil::Absent
            &&& on && target == MaterialTarget::Shape ==> {
                &&& plan.stencil matches MaterialStencil::Shape(s) && {
                    &&& op == 0 ==> !s.equal && s.pass == StencilPass::Keep
                    &&& op != 0 ==> tests(s)
                    &&& op == 1 || op == 4 ==> s.pass == StencilPass::Increment
                    &&& op == 2 ==> s.pass == StencilPass::Keep
                    &&& op == 3 ==> s.pass == StencilPass::Decrement
                }
            }
            &&& on && target == MaterialTarget::Text ==> (plan.stencil
                == MaterialStencil::TextTest <==> op == 2)
            &&& target == MaterialTarget::Shape ==> (plan.writes_color <==> op <= 2)
            &&& target == MaterialTarget::Text ==> plan.writes_color && plan.vertex is None
            &&& target == MaterialTarget::Shape ==> plan.vertex is Some
            &&& target == MaterialTarget::Shape && own is Some ==> plan.vertex->0@ == own->0@
            &&& exists|from: int|
                0 <= from && from + source@.len() <= plan.fragment@.len()
                    && #[trigger] plan.fragment@.subrange(from, from + source@.len()) == source@
        },
{
    if r is Ok {
        let plan = r->Ok_0;
        let per_sample = crate::pipeline_plan::material_ssaa(ssaa, target, own is Some);
        let head = crate::shader::preamble(target, per_sample);
        let from = head.len() as int;
        assert(plan.fragment@.subrange(from, from + source@.len()) =~= source@);
    }
}

/// Law: a material is drawn once per sample only if that was asked for, for shapes,
/// and without a vertex stage of its own.
pub proof fn lemma_which_materials_run_per_sample(
    own: bool,
    target: MaterialTarget,
    n: u32,
    coverage: bool,
    ssaa: bool,
    on: bool,
    op: u32,
    layout: ShapeVertexLayout,
    bits: u32,
    r: (u64, bool),
    key: u64,
)
    requires
        call_ensures(
            material_pipeline_request,
            (own, target, n, coverage, ssaa, on, op, layout, bits),
            r,
        ),
        call_ensures(
            material_format_key,
            (target, n, coverage, r.1, on, op, layout, bits),
            key,
        ),
    ensures
        r.1 <==> ssaa && target == MaterialTarget::Shape && !own,
        r.0 == key,
{
}

/// Law: a pipeline is made the first time its key is asked for, and found from then
/// on in the place that it got; the next one gets another place.
pub proof fn lemma_pipelines_are_made_once(
    cache: &mut PipelineCache,
    key: u64,
    slot: PipelineSlot,
    was: Option<usize>,
    now: Option<usize>,
)
    requires
        cache.wf(),
        cache.made() < usize::MAX,
        call_ensures(PipelineCache::find, (&*old(cache), key), was),
        call_ensures(PipelineCache::ensure, (cache, key), slot),
        call_ensures(PipelineCache::find, (&*final(cache), key), now),
    ensures
        was is None <==> slot is Create,
        was is Some ==> slot == PipelineSlot::Cached(was->0) && now == was,
        slot matches PipelineSlot::Create(n) ==> now == Some(n),
        slot matches PipelineSlot::Create(n) ==> forall|other: u64| #[trigger]
            old(cache)@.contains_key(other) ==> old(cache)@[other] != n,
{
}

/// Law: a cache that is new or was cleared finds nothing.
pub proof fn lemma_cleared_cache_finds_nothing(
    cache: &mut PipelineCache,
    fresh: PipelineCache,
    key: u64,
    r: Option<usize>,
)
    ensures
        call_ensures(PipelineCache::clear, (cache,), ()) && call_ensures(
            PipelineCache::find,
            (&*final(cache), key),
            r,
        ) ==> r is None,
        call_ensures(PipelineCache::new, (), fresh) && call_ensures(
            PipelineCache::find,
            (&fresh, key),
            r,
        ) ==> r is None,
{
}

/// Law: the context gives the same pipelines as the plans say, with its own format,
/// and keeps its sample counts.
pub proof fn lemma_context_plans_pipelines(
    context: &mut GpuContext,
    n: u32,
    coverage: bool,
    ssaa: bool,
    geometry: bool,
    r: (PipelineSlot, PipelinePlan),
    plan: PipelinePlan,
)
    requires
        context.wf(),
        context.pipelines.made() < usize::MAX,
        call_ensures(GpuContext::ensure_pipeline, (context, n, coverage, ssaa, geometry), r),
        call_ensures(
            plan_pipeline,
            (n, coverage, ssaa, geometry, old(context).format_bits),
            plan,
        ),
    ensures
        r.1 == plan,
        final(context).supported_sample_counts@ == old(context).supported_sample_counts@,
        final(context).format_bits == old(context).format_bits,
        old(context).pipelines@.contains_key(plan.key as u64) <==> r.0 is Cached,
        final(context).pipelines@.contains_key(plan.key as u64),
{
}

/// Law: so it does with a stencil buffer.
pub proof fn lemma_context_plans_stencil_pipelines(
    context: &mut GpuContext,
    n: u32,
    coverage: bool,
    ssaa: bool,
    geometry: bool,
    op: u32,
    r: (PipelineSlot, PipelinePlan),
    plan: PipelinePlan,
)
    requires
        context.wf(),
        context.pipelines.made() < usize::MAX,
        call_ensures(
            GpuContext::ensure_stencil_pipeline,
            (context, n, coverage, ssaa, geometry, op),
            r,
        ),
        call_ensures(
            plan_stencil_pipeline,
            (n, coverage, ssaa, geometry, op, old(context).format_bits),
            plan,
        ),
    ensures
        r.1 == plan,
        final(context).supported_sample_counts@ == old(context).supported_sample_counts@,
        old(context).pipelines@.contains_key(plan.key as u64) <==> r.0 is Cached,
{
}

/// Law: so it does for instances of distance shapes.
pub proof fn lemma_context_plans_instance_pipelines(
    context: &mut GpuContext,
    n: u32,
    coverage: bool,
    ssaa: bool,
    on: bool,
    op: u32,
    r: (PipelineSlot, PipelinePlan),
    plan: PipelinePlan,
)
    requires
        context.wf(),
        context.pipelines.made() < usize::MAX,
        call_ensures(
            GpuContext::ensure_instance_pipeline,
            (context, n, coverage, ssaa, on, op),
            r,
        ),
        call_ensures(
            plan_instance_pipeline,
            (n, coverage, ssaa, on, op, old(context).format_bits),
            plan,
        ),
    ensures
        r.1 == plan,
        old(context).pipelines@.contains_key(plan.key as u64) <==> r.0 is Cached,
{
}

/// Law: so it does for instances of meshes.
pub proof fn lemma_context_plans_geo_instance_pipelines(
    context: &mut GpuContext,
    n: u32,
    coverage: bool,
    ssaa: bool,
    on: bool,
    op: u32,
    r: (PipelineSlot, PipelinePlan),
    plan: PipelinePlan,
)
    requires
        context.wf(),
        context.pipelines.made() < usize::MAX,
        call_ensures(
            GpuContext::ensure_geo_instance_pipeline,
            (context, n, coverage, ssaa, on, op),
            r,
        ),
        call_ensures(
            plan_geo_instance_pipeline,
            (n, coverage, ssaa, on, op, old(context).format_bits),
            plan,
        ),
    ensures
        r.1 == plan,
        old(context).pipelines@.contains_key(plan.key as u64) <==> r.0 is Cached,
{
}

/// Law: where not all of the adapter's sample counts can be used, exactly those of
/// them that are 1 or 4 can, or 1 if none is; where all can, all are.
pub proof fn lemma_which_sample_counts_are_usable(
    counts: Vec<u32>,
    all: bool,
    r: Vec<u32>,
    n: u32,
)
    requires
        call_ensures(usable_sample_counts, (counts, all), r),
    ensures
        all ==> r@ == counts@,
        !all && r@.contains(n) ==> n == 1 || n == 4,
        !all && counts@.contains(n) && (n == 1 || n == 4) ==> r@.contains(n),
        !all && r@.contains(4) ==> counts@.contains(4),
        !all ==> r@.len() > 0,
{
    let keep = |c: u32| gpu::is_guaranteed(c);


    let guaranteed = counts@.filter(keep);
    if !all {
        if r@.contains(n) && guaranteed.len() > 0 {
            let k = choose|k: int| 0 <= k < guaranteed.len() && guaranteed[k] == n;
            assert(keep(guaranteed[k]));
        }
        if counts@.contains(n) && (n == 1 || n == 4) {
        }
        if counts@.contains(n) && (n == 1 || n == 4) {
            assert(keep(n));
            let k = choose|k: int| 0 <= k < counts@.len() && counts@[k] == n;
            assert(guaranteed.contains(counts@[k]));
        }
        if r@.contains(4) && guaranteed.len() > 0 {
            assert(guaranteed.contains(4));
            let k = choose|k: int| 0 <= k < guaranteed.len() && guaranteed[k] == 4;
            lemma_filtered_was_there(counts@, keep, 4);
        }
    }
}

proof fn lemma_filtered_was_there(s: Seq<u32>, keep: spec_fn(u32) -> bool, x: u32)
    requires
        s.filter(keep).contains(x),
    ensures
        s.contains(x),
    decreases s.len(),
{
    reveal(Seq::filter);
    if s.len() > 0 {
        let rest = s.drop_last();
        if rest.filter(keep).contains(x) {
            lemma_filtered_was_there(rest, keep, x);
            let k = choose|k: int| 0 <= k < rest.len() && rest[k] == x;
            assert(s[k] == x);
        } else {
            let all = s.filter(keep);
            let k = choose|k: int| 0 <= k < all.len() && all[k] == x;
            if k < rest.filter(keep).len() {
                assert(rest.filter(keep)[k] == x);
            }
            assert(s[s.len() - 1] == x);
        }
    }
}

/// Law: the sample count that serves a request is usable and not above it, and no
/// usable one lies between; the largest is the last, and 1 serves where there is
/// none.
pub proof fn lemma_sample_count_serves(context: GpuContext, wanted: u32, r: u32, most: u32, n: u32)
    requires
        wanted >= 1,
        call_ensures(GpuContext::clamp_sample_count, (&context, wanted), r),
        call_ensures(GpuContext::max_sample_count, (&context,), most),
        context.supported_sample_counts@.contains(n),
    ensures
        n <= wanted ==> context.supported_sample_counts@.contains(r) && n <= r <= wanted,
        most == context.supported_sample_counts@.last(),
        r != 1 ==> context.supported_sample_counts@.contains(r) && r <= wanted,
{
    if n <= wanted {
        assert(gpu::serves(context.supported_sample_counts@, n, wanted));
        assert(exists|c: u32| gpu::serves(context.supported_sample_counts@, c, wanted));
        assert(gpu::serves(context.supported_sample_counts@, r, wanted));
    }
}

// ---------------------------------------------------------------------------
// Renderers
// ---------------------------------------------------------------------------

/// Law: a new renderer has the sizes and settings that it is given, and neither
/// attachments nor buffers.
pub proof fn lemma_new_renderer(
    lw: u32,
    lh: u32,
    pw: u32,
    ph: u32,
    scale: F32Bits,
    n: u32,
    coverage: bool,
    ssaa: bool,
    dpi: F32Bits,
    r: Renderer,
)
    requires
        call_ensures(Renderer::new, (lw, lh, pw, ph, scale, n, coverage, ssaa, dpi), r),
    ensures
        r.logical_width == lw && r.logical_height == lh,
        r.physical_width == pw && r.physical_height == ph,
        r.scale == scale && r.dpi_scale == dpi,
        r.sample_count == n && r.alpha_to_coverage == coverage && r.ssaa == ssaa,
        r.msaa is None && r.depth_stencil is None && !r.storage_bound,
        r.vertex_cap == 0 && r.index_cap == 0 && r.instance_cap == 0 && r.edge_cap == 0
            && r.transform_cap == 0,
{
}

/// Law: an attachment that a frame gets has the size and the sample count of its
/// target, whether it is made or there; only one sample needs none for smoothing.
pub proof fn lemma_attachments_fit_target(
    r: &mut Renderer,
    plan: AttachmentPlan,
)
    requires
        call_ensures(Renderer::msaa_view, (r,), plan),
    ensures
        plan == AttachmentPlan::Absent <==> old(r).sample_count <= 1,
        plan matches AttachmentPlan::Create(a) ==> a.width == old(r).physical_width && a.height
            == old(r).physical_height && a.sample_count == old(r).sample_count,
        plan != AttachmentPlan::Absent ==> final(r).msaa is Some && final(r).msaa->0.width == old(r).physical_width && final(r).msaa->0.height == old(r).physical_height
            && final(r).msaa->0.sample_count == old(r).sample_count,
        plan == AttachmentPlan::Reuse ==> old(r).msaa == final(r).msaa,
        final(r).depth_stencil == old(r).depth_stencil,
        final(r).vertex_cap == old(r).vertex_cap && final(r).storage_bound == old(r).storage_bound,
{
}

/// Law: so it is with the stencil attachment, which every frame that asks gets.
pub proof fn lemma_stencil_attachment_fits_target(
    r: &mut Renderer,
    plan: AttachmentPlan,
)
    requires
        call_ensures(Renderer::ds_view, (r,), plan),
    ensures
        plan != AttachmentPlan::Absent,
        plan matches AttachmentPlan::Create(a) ==> a.width == old(r).physical_width && a.height
            == old(r).physical_height && a.sample_count == old(r).sample_count,
        final(r).depth_stencil is Some,
        final(r).depth_stencil->0.width == old(r).physical_width,
        final(r).depth_stencil->0.height == old(r).physical_height,
        final(r).depth_stencil->0.sample_count == old(r).sample_count,
        plan == AttachmentPlan::Reuse ==> old(r).depth_stencil == final(r).depth_stencil,
        final(r).msaa == old(r).msaa,
{
}

/// Law: resizing takes over the sizes and scales, drops both attachments and keeps
/// settings and buffers.
pub proof fn lemma_resized_renderer(
    r: &mut Renderer,
    lw: u32,
    lh: u32,
    pw: u32,
    ph: u32,
    scale: F32Bits,
    dpi: F32Bits,
)
    requires
        call_ensures(Renderer::resize, (r, lw, lh, pw, ph, scale, dpi), ()),
    ensures
        final(r).logical_width == lw && final(r).logical_height == lh,
        final(r).physical_width == pw && final(r).physical_height == ph,
        final(r).scale == scale && final(r).dpi_scale == dpi,
        final(r).msaa is None && final(r).depth_stencil is None,
        final(r).sample_count == old(r).sample_count && final(r).ssaa == old(r).ssaa
            && final(r).alpha_to_coverage == old(r).alpha_to_coverage,
        final(r).vertex_cap == old(r).vertex_cap && final(r).index_cap == old(r).index_cap
            && final(r).instance_cap == old(r).instance_cap && final(r).edge_cap == old(r).edge_cap
            && final(r).transform_cap == old(r).transform_cap,
{
}

/// Law: changing how edges are smoothed changes that, drops both attachments and
/// keeps sizes and buffers.
pub proof fn lemma_smoothing_is_changed(r: &mut Renderer, n: u32, coverage: bool, ssaa: bool)
    requires
        call_ensures(Renderer::update_aa, (r, n, coverage, ssaa), ()),
    ensures
        final(r).sample_count == n && final(r).alpha_to_coverage == coverage && final(r).ssaa
            == ssaa,
        final(r).msaa is None && final(r).depth_stencil is None,
        final(r).physical_width == old(r).physical_width && final(r).physical_height == old(r).physical_height,
        final(r).logical_width == old(r).logical_width && final(r).logical_height == old(r).logical_height,
        final(r).vertex_cap == old(r).vertex_cap && final(r).index_cap == old(r).index_cap
            && final(r).instance_cap == old(r).instance_cap && final(r).edge_cap == old(r).edge_cap
            && final(r).transform_cap == old(r).transform_cap,
{
}

/// Law: after asking for room, the buffer that was asked for has it and all others
/// are as they were; it never shrinks. The storage group is made anew exactly after
/// one of its buffers was.
pub proof fn lemma_buffer_has_room(
    r: &mut Renderer,
    kind: BufferKind,
    other: BufferKind,
    size: u64,
    made: Option<u64>,
)
    requires
        size <= 0x8000_0000_0000_0000,
        r.capacity(kind) < 0x8000_0000_0000_0000,
        call_ensures(Renderer::ensure_buffer, (r, kind, size), made),
    ensures
        final(r).capacity(kind) >= size,
        final(r).capacity(kind) >= old(r).capacity(kind),
        made is Some ==> final(r).capacity(kind) == made->0,
        made is None <==> size == 0 || size <= old(r).capacity(kind),
        kind != other ==> final(r).capacity(other) == old(r).capacity(other),
        made is Some && (kind == BufferKind::Edges || kind == BufferKind::Transforms) ==> !final(r).storage_bound,
        made is None || !(kind == BufferKind::Edges || kind == BufferKind::Transforms) ==> final(r).storage_bound == old(r).storage_bound,
        final(r).capacity(BufferKind::Vertices) == final(r).vertex_cap,
        final(r).capacity(BufferKind::Indices) == final(r).index_cap,
        final(r).capacity(BufferKind::Instances) == final(r).instance_cap,
        final(r).capacity(BufferKind::Edges) == final(r).edge_cap,
        final(r).capacity(BufferKind::Transforms) == final(r).transform_cap,
        final(r).msaa == old(r).msaa,
        final(r).depth_stencil == old(r).depth_stencil,
{
}

/// Law: the storage group is made once, until a buffer of it is made anew.
pub proof fn lemma_storage_is_bound_once(r: &mut Renderer, made: bool)
    requires
        call_ensures(Renderer::bind_storage, (r,), made),
    ensures
        made <==> !old(r).storage_bound,
        final(r).storage_bound,
        final(r).edge_cap == old(r).edge_cap && final(r).transform_cap == old(r).transform_cap,
{
}

/// Law: without children the box of a subtree is the batch's own, and without a box
/// of its own that of an only child; two boxes are joined.
pub proof fn lemma_box_of_subtree<R: Copy, F: Fn(R, R) -> R>(
    own: Option<R>,
    children: Vec<Option<R>>,
    join: F,
    r: Option<R>,
)
    requires
        call_ensures(subtree_box::<R, F>, (own, &children, &join), r),
    ensures
        children@.len() == 0 ==> r == own,
        children@.len() == 1 && own is None ==> r == children@[0],
        children@.len() == 1 && children@[0] is None ==> r == own,
        children@.len() == 1 && own is Some && children@[0] is Some ==> r is Some && call_ensures(
            join,
            (own->0, children@[0]->0),
            r->0,
        ),
        own is Some ==> r is Some,
{
    let steps = choose|steps: Seq<Option<R>>| #[trigger]
        renderer::are_unions(own, children@, join, steps) && r == steps.last();
    if children@.len() == 1 {
        assert(renderer::is_joined(steps[0], children@[0], join, steps[0int + 1]));
    }
}

/// Law: what the pass knows of an event is the event's own: its stencil use, shapes
/// and glyphs; its material and offsets if it is a batch; its box if it opens one,
/// and that it closes one if it does.
pub proof fn lemma_infos_are_of_their_events(
    events: Vec<DrawEvent>,
    uses: Vec<StencilUse>,
    shapes: Vec<Option<ShapeInfo>>,
    boxes: Vec<Option<PixelBox>>,
    texts: Vec<Vec<TextureSegment>>,
    r: Vec<EventInfo>,
    k: int,
)
    requires
        call_ensures(event_infos, (&events, &uses, &shapes, &boxes, &texts), r),
        uses@.len() == events@.len(),
        shapes@.len() == events@.len(),
        boxes@.len() == events@.len(),
        texts@.len() == events@.len(),
        0 <= k < events@.len(),
    ensures
        r@.len() == events@.len(),
        ({
            let i = r@[k];
            let e = events@[k];
            &&& i.stencil == uses@[k]
            &&& i.text@ == texts@[k]@
            &&& i.shape is Some <==> shapes@[k] is Some
            &&& i.shape is Some ==> {
                &&& i.shape->0.base_vertex == shapes@[k]->0.base_vertex
                &&& i.shape->0.segments@ == shapes@[k]->0.segments@
                &&& i.shape->0.instances@ == shapes@[k]->0.instances@
                &&& i.shape->0.geometry == shapes@[k]->0.geometry
            }
            &&& e is ScissorPush ==> i.scissor_push == boxes@[k]
            &&& !(e is ScissorPush) ==> i.scissor_push is None
            &&& i.scissor_pop <==> e is ScissorPop
            &&& e is Batch ==> i.custom_material == e->batch.custom_material && i.dynamic_offsets@
                == e->batch.dynamic_offsets@
            &&& !(e is Batch) ==> i.custom_material is None && i.dynamic_offsets@.len() == 0
        }),
{
    let infos = pass::info_models(r@);
    assert(infos.len() == events@.len());
    assert(infos[k] == r@[k]@);
    assert(flatten::event_models(events@)[k] == events@[k]@);
    assert(crate::frame::shape_models(shapes@)[k] == (match shapes@[k] {
        Some(s) => Some(s@),
        None => None,
    }));
    assert(renderer::text_models(texts@)[k] == texts@[k]@);
    assert(r@[k]@.shape is Some <==> r@[k].shape is Some);
    if r@[k].shape is Some {
        assert(r@[k].shape->0@ == shapes@[k]->0@);
    }
}

/// Law: a frame is sent exactly if it clears or some batch has shapes or texts; its
/// pass is opened if it clears or some event has something to show.
pub proof fn lemma_when_frames_are_sent(
    r: Renderer,
    events: Vec<DrawEvent>,
    boxes: Vec<Option<PixelBox>>,
    texts: Vec<Vec<TextureSegment>>,
    clears: bool,
    width: F32Bits,
    height: F32Bits,
    plan: Option<FramePlan>,
    k: int,
)
    requires
        2 * events@.len() < u32::MAX,
        boxes@.len() == events@.len(),
        texts@.len() == events@.len(),
        0 <= k < events@.len(),
        call_ensures(
            Renderer::draw,
            (&r, &events, &boxes, &texts, clears, width, height),
            plan,
        ),
    ensures
        clears ==> plan is Some && plan->0.opens_pass,
        events@[k] is Batch && (events@[k]->batch.vertices@.len() > 0
            || events@[k]->batch.instances@.len() > 0 || events@[k]->batch.texts@.len() > 0)
            ==> plan is Some,
        plan is Some ==> {
            let p = plan->0;
            &&& p.infos@.len() == events@.len()
            &&& p.infos@[k].text@ == texts@[k]@
            &&& texts@[k]@.len() > 0 || p.infos@[k].shape is Some ==> p.opens_pass
            &&& events@[k] is StencilPop || events@[k] is AreaOp ==> p.uses_stencil
            &&& events@[k] is ScissorPush ==> p.infos@[k].scissor_push == boxes@[k]
        },
{
    let models = flatten::event_models(events@);
    assert(models[k] == events@[k]@);
    if plan is Some {
        let p = plan->0;
        let infos = pass::info_models(p.infos@);
        assert(infos.len() == models.len());
        assert(infos[k] == p.infos@[k]@);
        assert(renderer::text_models(texts@)[k] == texts@[k]@);
        assert(p.infos@[k]@.shape is Some <==> p.infos@[k].shape is Some);
        if texts@[k]@.len() > 0 || p.infos@[k].shape is Some {
            assert(renderer::shows_something(infos[k]));
        }
    }
}

/// Law: what is made by default is nothing: the origin, the whole texture, no move
/// and no colour.
pub proof fn lemma_defaults_are_nothing(p: Pos, uv: UvRect, t: Transform, c: Color)
    requires
        call_ensures(<Pos as Default>::default, (), p),
        call_ensures(<UvRect as Default>::default, (), uv),
        call_ensures(<Transform as Default>::default, (), t),
        call_ensures(<Color as Default>::default, (), c),
    ensures
        p.x == 0 && p.y == 0,
        uv.u0 == 0 && uv.v0 == 0 && uv.u1 == 0x3f80_0000 && uv.v1 == 0x3f80_0000,
        t.a == 0x3f80_0000 && t.d == 0x3f80_0000 && t.b == 0 && t.c == 0,
        t.x == 0 && t.y == 0 && t.px == 0 && t.py == 0,
        c.r == 0 && c.g == 0 && c.b == 0 && c.a == 0,
{
}

/// Law: a number of physical pixels is known in both kinds: as it is, and divided by
/// the scale if that is positive.
pub proof fn lemma_number_is_known_in_both<F: Fn(F64Bits, F64Bits) -> F64Bits>(
    n: F64Bits,
    scale: F64Bits,
    over: F,
    r: Pixel,
)
    requires
        call_ensures(pixel_of::<F>, (n, scale, &over), r),
    ensures
        r.px.0 == n,
        0 < scale <= 0x7ff0_0000_0000_0000 ==> call_ensures(over, (n, scale), r.dp.0),
        scale == 0 || scale > 0x7ff0_0000_0000_0000 ==> r.dp.0 == n,
{
}

/// Law: the key of a material's pipeline for meshes is that for meshes in any
/// format, and the sample counts that are told are those of the context.
pub proof fn lemma_mesh_key_of_material(
    target: MaterialTarget,
    n: u32,
    coverage: bool,
    ssaa: bool,
    on: bool,
    op: u32,
    r: u64,
    key: u64,
    context: GpuContext,
    counts: &Vec<u32>,
)
    requires
        call_ensures(material_pipeline_key, (target, n, coverage, ssaa, on, op), r),
        call_ensures(
            material_format_key,
            (target, n, coverage, ssaa, on, op, ShapeVertexLayout::Mesh, 0),
            key,
        ),
        call_ensures(GpuContext::supported_sample_counts, (&context,), counts),
    ensures
        r == key,
        counts@ == context.supported_sample_counts@,
{
}

/// Law: a new context has the format and the sample counts that it is given, and
/// one pipeline.
pub proof fn lemma_new_context(
    counts: Vec<u32>,
    all: bool,
    bits: u32,
    usable: Vec<u32>,
    plan: PipelinePlan,
    r: GpuContext,
)
    requires
        call_ensures(GpuContext::new, (counts, all, bits), r),
        call_ensures(usable_sample_counts, (counts, all), usable),
        call_ensures(plan_pipeline, (1, false, false, false, bits), plan),
    ensures
        r.format_bits == bits,
        r.supported_sample_counts@ == usable@,
        r.pipelines.made() == 1,
        r.pipelines@.contains_key(plan.key as u64),
{
}

} // verus!
