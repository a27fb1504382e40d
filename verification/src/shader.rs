//! The text of material shaders, and the line numbers of errors in them.

use crate::decimal::decimal_string;
use crate::decimal;
use crate::pipeline::MaterialTarget;
use crate::text;
use crate::text::{
    chars_of, count_line_feeds, find_from, find_line_end, parse_u32, push_chars, replace_all, skip_space,
    skip_space_back,
};
use vstd::prelude::*;
use vstd::string::*;

verus! {

/// What a shape's vertex stage hands to its fragment stage.
pub const SHAPE_VERTEX_OUTPUT_WGSL: &'static str = r#"
struct VertexOutput {
    @builtin(position) position: vec4<f32>,
    @location(0) uv: vec2<f32>,
    @location(1) color: vec4<f32>,
    @location(2) sdf_params: vec4<f32>,
    @location(3) @interpolate(linear) local_pos: vec2<f32>,
    @location(4) @interpolate(flat) sdf_type: u32,
    @location(5) sdf_feather: f32,
    @location(6) sdf_extra: vec2<f32>,
};
"#;

/// What a material's fragment function is given.
pub const MATERIAL_INPUT_WGSL: &'static str = r#"
// MaterialInput contract for shape and text (not a frozen ABI yet).
//
// Fields (always present; some are target-specific):
// - uv: content-native UV
//     shape = current primitive texture UV
//     text  = glyph atlas UV
// - base_uv: batch base-texture UV from DrawBatch::set_texture / set_uv
//     shape = primitive UV mapped into batch UV rect (each draw_* remaps independently)
//     text  = per-glyph-quad UV mapped into batch UV rect (REPEATS per glyph; intentional)
//     NOT a continuous whole-line/text-area UV. Continuous text mapping needs a future
//     field (e.g. text_uv / screen_uv) — do NOT repurpose base_uv.
// - color: default base color after engine sampling * vertex/text color (rgb only for material_main;
//          alpha is reapplied by the engine wrapper after material_main)
// - local_pos: shape-only local position; text fills (0,0)
// - sdf_params / sdf_extra / sdf_type / sdf_feather: shape-only SDF data; text fills zeros
// - content_type: text-only (0=color atlas glyph, 1=mask glyph); shape fills 0
// - target_type: VIREO_TARGET_SHAPE (0) or VIREO_TARGET_TEXT (1)
//
// Prefer helpers over internal resource names:
// - vireo_base_sample(uv)
// - vireo_base_color(in)
// - vireo_has_base_sample() / vireo_has_local_pos() / vireo_has_sdf_data()
const VIREO_TARGET_SHAPE: u32 = 0u;
const VIREO_TARGET_TEXT: u32 = 1u;

struct MaterialInput {
    uv: vec2<f32>,
    base_uv: vec2<f32>,
    color: vec4<f32>,
    local_pos: vec2<f32>,
    sdf_params: vec4<f32>,
    sdf_extra: vec2<f32>,
    sdf_type: u32,
    sdf_feather: f32,
    content_type: u32,
    target_type: u32,
};
"#;

/// Bindings and helper functions of a shape's fragment stage.
pub const SHAPE_FRAGMENT_SUPPORT_WGSL: &'static str = r#"
struct Camera {
    projection: mat4x4<f32>,
    dpi_scale: f32,
};
@group(0) @binding(0) var<uniform> camera: Camera;
@group(1) @binding(0) var vireo_base_texture: texture_2d<f32>;
@group(1) @binding(1) var vireo_base_sampler: sampler;
@group(2) @binding(1) var<storage> polygon_edges: array<vec4<f32>>;

fn vireo_base_sample(uv: vec2<f32>) -> vec4<f32> {
    return textureSample(vireo_base_texture, vireo_base_sampler, uv);
}

fn vireo_base_color(in: MaterialInput) -> vec4<f32> {
    return in.color;
}

fn vireo_has_base_sample() -> bool { return true; }
fn vireo_has_local_pos() -> bool { return true; }
fn vireo_has_sdf_data() -> bool { return true; }

fn vireo_apply_sdf(in: VertexOutput, base_color: vec4<f32>) -> vec4<f32> {
    var out_color = base_color;
    if in.sdf_type == 0u { return out_color; }
    let feather = in.sdf_feather / camera.dpi_scale;
    var d: f32;
    switch in.sdf_type {
        case 1u: {
            d = length((in.local_pos - in.sdf_params.xy) / vec2(in.sdf_params.z, in.sdf_params.w));
            if d >= 1.0 { discard; }
            if feather > 0.0 {
                let k = feather / max(in.sdf_params.z, in.sdf_params.w);
                out_color.a *= 1.0 - smoothstep(1.0 - k, 1.0, d);
            }
        }
        case 2u: {
            let hw = in.sdf_params.z; let hh = in.sdf_params.w; let r = in.sdf_extra.x;
            d = length(max(abs(in.local_pos - in.sdf_params.xy) - vec2(hw - r, hh - r), vec2(0.0))) - r;
            if feather > 0.0 {
                if d >= feather { discard; }
                out_color.a *= 1.0 - smoothstep(0.0, feather, d);
            } else if d > 0.0 { discard; }
        }
        case 3u: {
            let a = in.sdf_params.xy; let b = in.sdf_params.zw;
            let ab = b - a;
            let ab_len2 = max(dot(ab, ab), 1e-8);
            let t = clamp(dot(in.local_pos - a, ab) / ab_len2, 0.0, 1.0);
            d = length(in.local_pos - (a + t * ab)) - in.sdf_extra.x;
            if feather > 0.0 {
                if d >= feather { discard; }
                out_color.a *= 1.0 - smoothstep(0.0, feather, d);
            } else if d > 0.0 { discard; }
        }
        case 4u: {
            let a = in.sdf_params.xy; let b = in.sdf_params.zw; let c = in.sdf_extra;
            let ab = b - a; let bc = c - b; let ca = a - c;
            let n_ab = select(vec2(0.0, 1.0), normalize(vec2(-ab.y, ab.x)), length(ab) > 1e-6);
            let n_bc = select(vec2(0.0, 1.0), normalize(vec2(-bc.y, bc.x)), length(bc) > 1e-6);
            let n_ca = select(vec2(0.0, 1.0), normalize(vec2(-ca.y, ca.x)), length(ca) > 1e-6);
            let d_ab = dot(in.local_pos - a, n_ab); let d_bc = dot(in.local_pos - b, n_bc); let d_ca = dot(in.local_pos - c, n_ca);
            let inside = d_ab > -0.0001 && d_bc > -0.0001 && d_ca > -0.0001;
            d = select(max(-d_ab, max(-d_bc, -d_ca)), -min(d_ab, min(d_bc, d_ca)), inside);
            if feather > 0.0 {
                if d >= feather { discard; }
                out_color.a *= 1.0 - smoothstep(0.0, feather, d);
            } else if d > 0.0 { discard; }
        }
        case 6u: {
            let start = u32(in.sdf_params.x); let count = u32(in.sdf_params.y);
            var d_max = -1e10;
            var d_min = 1e10;
            var inside = true;
            for (var i = start; i < start + count; i++) {
                let e = polygon_edges[i];
                let sd = dot(in.local_pos, e.xy) - e.z;
                if sd < -0.0001 { inside = false; }
                d_max = max(d_max, -sd);
                d_min = min(d_min, sd);
            }
            d = select(d_max, -d_min, inside);
            if feather > 0.0 {
                if d >= feather { discard; }
                out_color.a *= 1.0 - smoothstep(0.0, feather, d);
            } else if d > 0.0 { discard; }
        }
        case 7u: {
            let start = u32(in.sdf_params.x); let count = u32(in.sdf_params.y);
            let h = in.sdf_params.z;
            d = 1e10;
            for (var i = start; i < start + count; i++) {
                let seg = polygon_edges[i];
                let a = seg.xy; let b = seg.zw;
                let ab = b - a;
                let ab_len2 = max(dot(ab, ab), 1e-8);
                let t = clamp(dot(in.local_pos - a, ab) / ab_len2, 0.0, 1.0);
                d = min(d, length(in.local_pos - (a + t * ab)));
            }
            d -= h;
            if feather > 0.0 {
                if d >= feather { discard; }
                out_color.a *= 1.0 - smoothstep(0.0, feather, d);
            } else if d > 0.0 { discard; }
        }
        default: {
            let center = in.sdf_params.xy; let r = in.sdf_params.z;
            let to_p = in.local_pos - center;
            let d_circle = length(to_p) - r;
            let sa = in.sdf_extra.x; let ea = in.sdf_extra.y;
            let raw_span = ea - sa;
            let ccw_span = select(raw_span, raw_span + 6.283185307, raw_span < 0.0);
            let n_start = vec2(sin(sa), -cos(sa));
            let n_end = vec2(-sin(ea), cos(ea));
            let d_start = dot(to_p, n_start);
            let d_end = dot(to_p, n_end);
            let cn_start = vec2(sin(ea), -cos(ea));
            let cn_end = vec2(-sin(sa), cos(sa));
            let d_edge = select(
                -max(dot(to_p, cn_start), dot(to_p, cn_end)),
                max(d_start, d_end),
                ccw_span <= 3.14159265,
            );
            d = max(d_circle, d_edge);
            if feather > 0.0 {
                if d >= feather { discard; }
                out_color.a *= 1.0 - smoothstep(0.0, feather, d);
            } else if d > 0.0 { discard; }
        }
    }
    return out_color;
}
"#;

/// What the vertex stage of a text hands to its fragment stage.
pub const TEXT_VERTEX_OUTPUT_WGSL: &'static str = r#"
struct VertexOutput {
    @invariant @builtin(position) position: vec4<f32>,
    @location(0) color: vec4<f32>,
    @location(1) uv: vec2<f32>,
    @location(2) @interpolate(flat) content_type: u32,
    @location(3) base_uv: vec2<f32>,
};
"#;

/// Bindings and helper functions of a text's fragment stage.
pub const TEXT_FRAGMENT_SUPPORT_WGSL: &'static str = r#"
@group(0) @binding(0) var vireo_color_atlas: texture_2d<f32>;
@group(0) @binding(1) var vireo_mask_atlas: texture_2d<f32>;
@group(0) @binding(2) var vireo_atlas_sampler: sampler;
@group(0) @binding(3) var vireo_base_texture: texture_2d<f32>;
@group(0) @binding(4) var vireo_base_sampler: sampler;

fn vireo_base_sample(uv: vec2<f32>) -> vec4<f32> {
    return textureSample(vireo_base_texture, vireo_base_sampler, uv);
}

fn vireo_base_color(in: MaterialInput) -> vec4<f32> {
    return in.color;
}

fn vireo_has_base_sample() -> bool { return true; }
fn vireo_has_local_pos() -> bool { return false; }
fn vireo_has_sdf_data() -> bool { return false; }
"#;

/// The entry point of a shape's fragment stage.
pub const SHAPE_FRAGMENT_MAIN_WGSL: &'static str = r#"
@fragment
fn fs_main(in: VertexOutput) -> @location(0) vec4<f32> {
    let base = textureSample(vireo_base_texture, vireo_base_sampler, in.uv) * in.color;
    let material_in = MaterialInput(
        in.uv, in.uv, vec4<f32>(base.rgb, 1.0), in.local_pos, in.sdf_params, in.sdf_extra,
        in.sdf_type, in.sdf_feather, 0u, 0u,
    );
    var out_color = material_main(material_in);
    out_color.a *= base.a;
    return vireo_apply_sdf(in, out_color);
}
"#;

/// The entry point of a text's fragment stage.
pub const TEXT_FRAGMENT_MAIN_WGSL: &'static str = r#"
@fragment
fn fs_main(in: VertexOutput) -> @location(0) vec4<f32> {
    var base: vec4<f32>;
    if in.content_type == 0u {
        base = textureSampleLevel(vireo_color_atlas, vireo_atlas_sampler, in.uv, 0.0);
    } else {
        let mask = textureSampleLevel(vireo_mask_atlas, vireo_atlas_sampler, in.uv, 0.0).x;
        base = vec4<f32>(in.color.rgb, in.color.a * mask);
    }
    let material_in = MaterialInput(
        in.uv, in.base_uv, vec4<f32>(base.rgb, 1.0), vec2<f32>(0.0), vec4<f32>(0.0), vec2<f32>(0.0),
        0u, 0.0, in.content_type, 1u,
    );
    var out_color = material_main(material_in);
    out_color.a *= base.a;
    return out_color;
}
"#;

// ---------------------------------------------------------------------------
// Vertex stages
// ---------------------------------------------------------------------------

/// A vertex stage that interpolates per sample, made to interpolate per pixel.
pub open spec fn per_pixel(source: Seq<char>) -> Seq<char> {
    text::replaced(source, "@interpolate(linear, sample)"@, "@interpolate(linear)"@)
}

/// A stage whose local position is interpolated per pixel, made to interpolate
/// it per sample.
pub open spec fn per_sample_position(source: Seq<char>) -> Seq<char> {
    text::replaced(
        source,
        "@interpolate(linear) local_pos"@,
        "@interpolate(linear, sample) local_pos"@,
    )
}

/// Law: per pixel, no stage interpolates per sample any more; per sample, none
/// interpolates its local position per pixel. A stage that does not say
/// otherwise stays as it is.
pub proof fn lemma_interpolation_is_replaced(source: Seq<char>)
    ensures
        !text::holds(per_pixel(source), "@interpolate(linear, sample)"@),
        !text::holds(per_sample_position(source), "@interpolate(linear) local_pos"@),
        !text::holds(source, "@interpolate(linear, sample)"@) ==> per_pixel(source) == source,
        !text::holds(source, "@interpolate(linear) local_pos"@) ==> per_sample_position(source)
            == source,
        per_pixel(per_pixel(source)) == per_pixel(source),
{
    reveal_strlit("@interpolate(linear, sample)");
    reveal_strlit("@interpolate(linear)");
    reveal_strlit("@interpolate(linear) local_pos");
    reveal_strlit("@interpolate(linear, sample) local_pos");
    let sample = "@interpolate(linear, sample)"@;
    let pixel = "@interpolate(linear)"@;
    let pixel_pos = "@interpolate(linear) local_pos"@;
    let sample_pos = "@interpolate(linear, sample) local_pos"@;
    assert(sample[19] != pixel[19]);
    assert(text::tells_apart(sample, pixel));
    assert(pixel_pos[19] != sample_pos[19]);
    assert(text::tells_apart(pixel_pos, sample_pos));
    text::lemma_replaced_lacks(source, sample, pixel);
    text::lemma_replaced_lacks(source, pixel_pos, sample_pos);
    text::lemma_replaced_same(per_pixel(source), sample, pixel);
    if !text::holds(source, sample) {
        text::lemma_replaced_same(source, sample, pixel);
    }
    if !text::holds(source, pixel_pos) {
        text::lemma_replaced_same(source, pixel_pos, sample_pos);
    }
}

/// The vertex stage of meshes, from its text with supersampling.
pub open spec fn shape_vertex(source: Seq<char>, ssaa: bool) -> Seq<char> {
    if ssaa {
        source
    } else {
        per_pixel(source)
    }
}

/// Law: with supersampling, the vertex stage of meshes interpolates per sample
/// where its text does. Without, it never does, and is the stage with
/// supersampling with each such place replaced.
pub proof fn lemma_shape_vertex_interpolation(source: Seq<char>)
    ensures
        text::holds(shape_vertex(source, true), "@interpolate(linear, sample)"@) == text::holds(
            source,
            "@interpolate(linear, sample)"@,
        ),
        !text::holds(shape_vertex(source, false), "@interpolate(linear, sample)"@),
        shape_vertex(source, false) == text::replaced(
            shape_vertex(source, true),
            "@interpolate(linear, sample)"@,
            "@interpolate(linear)"@,
        ),
{
    lemma_interpolation_is_replaced(source);
}

/// The vertex stage of meshes, from its text with supersampling.
pub fn default_shape_vertex_wgsl(source: &str, ssaa: bool) -> (r: String)
    ensures
        r@ == shape_vertex(source@, ssaa),
        !ssaa ==> !text::holds(r@, "@interpolate(linear, sample)"@),
{
    if ssaa {
        String::from_str(source)
    } else {
        proof {
            reveal_strlit("@interpolate(linear, sample)");
            lemma_interpolation_is_replaced(source@);
        }
        replace_all(source, "@interpolate(linear, sample)", "@interpolate(linear)")
    }
}

/// The vertex stage of instanced distance shapes, from its text with
/// supersampling. It interpolates as [`material_fragment_source`] does.
pub fn default_sdf_instance_vertex_wgsl(source: &str, ssaa: bool) -> (r: String)
    ensures
        r@ == shape_vertex(source@, ssaa),
        !ssaa ==> !text::holds(r@, "@interpolate(linear, sample)"@),
{
    default_shape_vertex_wgsl(source, ssaa)
}

/// The vertex stage of instanced meshes, from its text without supersampling.
pub fn default_geo_instance_vertex_wgsl(source: &str, ssaa: bool) -> (r: String)
    ensures
        r@ == (if ssaa {
            per_sample_position(source@)
        } else {
            source@
        }),
{
    if ssaa {
        proof {
            reveal_strlit("@interpolate(linear) local_pos");
        }
        replace_all(
            source,
            "@interpolate(linear) local_pos",
            "@interpolate(linear, sample) local_pos",
        )
    } else {
        String::from_str(source)
    }
}

// ---------------------------------------------------------------------------
// Fragment stages
// ---------------------------------------------------------------------------

/// What stands before a material's own code.
pub open spec fn preamble(target: MaterialTarget, ssaa: bool) -> Seq<char> {
    match target {
        MaterialTarget::Shape => {
            let output = if ssaa {
                per_sample_position(SHAPE_VERTEX_OUTPUT_WGSL@)
            } else {
                SHAPE_VERTEX_OUTPUT_WGSL@
            };
            output + "\n"@ + MATERIAL_INPUT_WGSL@ + "\n"@ + SHAPE_FRAGMENT_SUPPORT_WGSL@ + "\n"@
        },
        MaterialTarget::Text => TEXT_VERTEX_OUTPUT_WGSL@ + "\n"@ + MATERIAL_INPUT_WGSL@ + "\n"@
            + TEXT_FRAGMENT_SUPPORT_WGSL@,
    }
}

/// What stands behind a material's own code and a line feed.
pub open spec fn entry_point(target: MaterialTarget) -> Seq<char> {
    match target {
        MaterialTarget::Shape => SHAPE_FRAGMENT_MAIN_WGSL@,
        MaterialTarget::Text => TEXT_FRAGMENT_MAIN_WGSL@,
    }
}

/// The line on which a material's own code starts, the first line being one.
pub open spec fn user_line(target: MaterialTarget, ssaa: bool) -> nat {
    text::line_feeds(preamble(target, ssaa)) + 1
}

/// The fragment stage of a material, and the line on which the material's own
/// code starts in it, the first line being one.
pub fn material_fragment_source(source: &str, target: MaterialTarget, ssaa: bool) -> (r: (
    String,
    u32,
))
    ensures
        r.0@ == preamble(target, ssaa) + source@ + "\n"@ + entry_point(target),
        r.1 == user_line(target, ssaa) as u32,
{
    let mut out = String::new();
    match target {
        MaterialTarget::Shape => {
            let output = default_geo_instance_vertex_wgsl(SHAPE_VERTEX_OUTPUT_WGSL, ssaa);
            out.append(output.as_str());
            out.append("\n");
            out.append(MATERIAL_INPUT_WGSL);
            out.append("\n");
            out.append(SHAPE_FRAGMENT_SUPPORT_WGSL);
            out.append("\n");
        },
        MaterialTarget::Text => {
            out.append(TEXT_VERTEX_OUTPUT_WGSL);
            out.append("\n");
            out.append(MATERIAL_INPUT_WGSL);
            out.append("\n");
            out.append(TEXT_FRAGMENT_SUPPORT_WGSL);
        },
    }
    assert(out@ =~= preamble(target, ssaa));
    let line: u128 = count_line_feeds(out.as_str()) as u128 + 1;
    out.append(source);
    out.append("\n");
    match target {
        MaterialTarget::Shape => out.append(SHAPE_FRAGMENT_MAIN_WGSL),
        MaterialTarget::Text => out.append(TEXT_FRAGMENT_MAIN_WGSL),
    }
    (out, line as u32)
}

// ---------------------------------------------------------------------------
// Errors
// ---------------------------------------------------------------------------

/// The line of the material's own code that line `n` of a shader is. The own
/// code has `len` lines and starts at line `start`; lines before it keep their
/// number, lines behind it are counted from its end.
pub open spec fn own_line(n: int, start: int, len: int) -> int {
    if n < start {
        n
    } else if n < start + len {
        n - start + 1
    } else {
        n - start - len + 1
    }
}

fn adjusted_line(n: u32, start: u32, len: u32) -> (r: u32)
    requires
        start + len <= u32::MAX,
        n < u32::MAX || start > 0 || len > 0,
    ensures
        r == own_line(n as int, start as int, len as int),
{
    if n < start {
        n
    } else if n < start + len {
        n - start + 1
    } else {
        n - start - len + 1
    }
}

/// A text with spaces before it, so that it has at least four characters.
pub open spec fn padded(s: Seq<char>) -> Seq<char>
    decreases 4 - s.len(),
{
    if s.len() >= 4 {
        s
    } else {
        padded(seq![' '] + s)
    }
}

/// The place of the first bar from place `i` on; the end if there is none.
pub open spec fn bar_from(s: Seq<char>, i: int) -> int
    decreases s.len() - i,
{
    if i >= s.len() {
        s.len() as int
    } else if s[i] == '│' {
        i
    } else {
        bar_from(s, i + 1)
    }
}

/// A line of an error. Where it is, behind white space, a number, white space, a
/// bar and any text, the number is that of the own line, and the text is kept.
pub open spec fn rewritten(line: Seq<char>, start: int, len: int) -> Seq<char> {
    let t = text::trimmed_start(line);
    let bar = bar_from(t, 0);
    if bar < t.len() {
        match text::parsed_u32(text::trimmed_end(t.take(bar))) {
            Some(n) => padded(decimal::decimal_text(own_line(n as int, start, len) as nat)) + seq![
                ' ',
                '│',
            ] + t.skip(bar + 1),
            None => line,
        }
    } else {
        line
    }
}

/// Lines rewritten, each with a line feed behind it.
pub open spec fn all_rewritten(lines: Seq<Seq<char>>, start: int, len: int) -> Seq<char>
    decreases lines.len(),
{
    if lines.len() == 0 {
        seq![]
    } else {
        rewritten(lines[0], start, len) + seq!['\n'] + all_rewritten(lines.skip(1), start, len)
    }
}

/// A text in which the line number behind the first `shader.wgsl:`, up to the
/// next colon, is the number of the own line.
pub open spec fn relocated(s: Seq<char>, start: int, len: int) -> Seq<char> {
    match text::found_from(s, "shader.wgsl:"@, 0) {
        None => s,
        Some(pos) => {
            let from = pos + "shader.wgsl:"@.len();
            match text::found_from(s, ":"@, from) {
                None => s,
                Some(colon) => match text::parsed_u32(s.subrange(from, colon)) {
                    None => s,
                    Some(n) => s.take(from) + decimal::decimal_text(
                        own_line(n as int, start, len) as nat,
                    ) + s.skip(colon),
                },
            }
        },
    }
}

fn push_padded(out: &mut String, n: u32)
    ensures
        final(out)@ == old(out)@ + padded(decimal::decimal_text(n as nat)),
{
    let ghost before = out@;
    let digits = decimal_string(n as u64);
    let chars = chars_of(digits.as_str());
    let mut k: usize = chars.len();
    let ghost mut spaces: Seq<char> = seq![];
    assert(spaces + digits@ =~= digits@);
    while k < 4
        invariant
            k == spaces.len() + digits@.len(),
            out@ == before + spaces,
            padded(spaces + digits@) == padded(digits@),
            forall|i: int| 0 <= i < spaces.len() ==> spaces[i] == ' ',
        decreases 4 - k,
    {
        out.push(' ');
        proof {
            let more = spaces.push(' ');
            assert(seq![' '] + (spaces + digits@) =~= more + digits@);
            assert(padded(spaces + digits@) == padded(seq![' '] + (spaces + digits@)));
            spaces = more;
        }
        k = k + 1;
    }
    out.append(digits.as_str());
    assert(out@ =~= before + (spaces + digits@));
    assert(padded(spaces + digits@) == spaces + digits@);
}

fn find_bar(chars: &Vec<char>, from: usize, to: usize) -> (r: usize)
    requires
        from <= to <= chars.len(),
    ensures
        from <= r <= to,
        r - from == bar_from(chars@.subrange(from as int, to as int), 0),
{
    let ghost t = chars@.subrange(from as int, to as int);
    let mut i: usize = from;
    while i < to && chars[i] != '│'
        invariant
            from <= i <= to <= chars.len(),
            t == chars@.subrange(from as int, to as int),
            bar_from(t, 0) == bar_from(t, i - from),
        decreases to - i,
    {
        assert(t[i - from] == chars@[i as int]);
        i = i + 1;
    }
    if i < to {
        assert(t[i - from] == chars@[i as int]);
    }
    i
}

fn push_rewritten(out: &mut String, chars: &Vec<char>, from: usize, to: usize, start: u32, len: u32)
    requires
        from <= to <= chars.len(),
        start + len <= u32::MAX,
        start > 0 || len > 0,
    ensures
        final(out)@ == old(out)@ + rewritten(
            chars@.subrange(from as int, to as int),
            start as int,
            len as int,
        ),
{
    let ghost line = chars@.subrange(from as int, to as int);
    let first = skip_space(chars, from, to);
    let ghost t = chars@.subrange(first as int, to as int);
    let bar = find_bar(chars, first, to);
    if bar < to {
        assert(t.take(bar - first) =~= chars@.subrange(first as int, bar as int));
        assert(t.skip(bar - first + 1) =~= chars@.subrange(bar + 1, to as int));
        let end = skip_space_back(chars, first, bar);
        if let Some(n) = parse_u32(chars, first, end) {
            let ghost before = out@;
            push_padded(out, adjusted_line(n, start, len));
            out.push(' ');
            out.push('│');
            push_chars(out, chars, bar + 1, to);
            assert(out@ =~= before + rewritten(line, start as int, len as int));
            return;
        }
    }
    push_chars(out, chars, from, to);
}

/// An error of the shader compiler with line numbers of the material's own
/// code, which starts at line `user_start` of the compiled text and has
/// `user_len` lines.
pub fn offset_naga_error(msg: &str, user_start: u32, user_len: u32) -> (r: String)
    requires
        user_start + user_len <= u32::MAX,
        user_start > 0 || user_len > 0,
    ensures
        r@ == relocated(
            all_rewritten(text::lines_from(msg@, 0), user_start as int, user_len as int),
            user_start as int,
            user_len as int,
        ),
{
    let chars = chars_of(msg);
    let ghost start = user_start as int;
    let ghost len = user_len as int;
    let mut out = String::new();
    let mut i: usize = 0;
    while i < chars.len()
        invariant
            i <= chars.len(),
            chars@ == msg@,
            start == user_start,
            len == user_len,
            user_start + user_len <= u32::MAX,
            user_start > 0 || user_len > 0,
            out@ + all_rewritten(text::lines_from(msg@, i as int), start, len) == all_rewritten(
                text::lines_from(msg@, 0),
                start,
                len,
            ),
        decreases chars.len() - i,
    {
        let ghost before = out@;
        let end = find_line_end(&chars, i);
        let stop: usize = if end < chars.len() && end > i && chars[end - 1] == '\r' {
            end - 1
        } else {
            end
        };
        let ghost lines = text::lines_from(msg@, i as int);
        let next: usize = if end < chars.len() {
            end + 1
        } else {
            end
        };
        proof {
            let raw = msg@.subrange(i as int, end as int);
            let rest = text::lines_from(msg@, next as int);
            let line = chars@.subrange(i as int, stop as int);
            if end < chars.len() {
                if raw.len() > 0 {
                    assert(raw.last() == msg@[end - 1]);
                    assert(raw.drop_last() =~= msg@.subrange(i as int, end - 1));
                }
                assert(line =~= text::without_return(raw));
                assert(lines =~= seq![line] + rest);
            } else {
                assert(msg@.skip(i as int) =~= line);
                assert(rest =~= seq![]);
                assert(lines =~= seq![line] + rest);
            }
            assert(lines[0] == line);
            assert(lines.skip(1) =~= rest);
        }
        push_rewritten(&mut out, &chars, i, stop, user_start, user_len);
        out.push('\n');
        assert(out@ + all_rewritten(text::lines_from(msg@, next as int), start, len) =~= before
            + all_rewritten(lines, start, len));
        i = next;
    }
    assert(out@ =~= out@ + all_rewritten(text::lines_from(msg@, i as int), start, len));
    relocate(out, user_start, user_len)
}

fn relocate(s: String, start: u32, len: u32) -> (r: String)
    requires
        start + len <= u32::MAX,
        start > 0 || len > 0,
    ensures
        r@ == relocated(s@, start as int, len as int),
{
    proof {
        reveal_strlit("shader.wgsl:");
        reveal_strlit(":");
    }
    let chars = chars_of(s.as_str());
    let name = chars_of("shader.wgsl:");
    let colon_text = chars_of(":");
    if let Some(pos) = find_from(&chars, &name, 0) {
        let from: usize = pos + name.len();
        if let Some(colon) = find_from(&chars, &colon_text, from) {
            if let Some(n) = parse_u32(&chars, from, colon) {
                let mut out = String::new();
                push_chars(&mut out, &chars, 0, from);
                let number = decimal_string(adjusted_line(n, start, len) as u64);
                out.append(number.as_str());
                push_chars(&mut out, &chars, colon, chars.len());
                assert(out@ =~= relocated(s@, start as int, len as int));
                return out;
            }
        }
    }
    s
}

} // verus!
