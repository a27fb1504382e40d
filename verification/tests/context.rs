//! Batches: shapes, transforms, children, events, and the plan of a frame.

use vireo::area::Area;
use vireo::batch::{DrawBatch, InstanceShape, ShapeOverride, ShapeRoute, TextureSegment};
use vireo::batch::line_chain_segments;
use vireo::colors::{BLACK, BLUE, GREEN, RED, WHITE};
use vireo::flatten::{flatten_frame, BatchHint, DrawEvent};
use vireo::frame::build_frame;
use vireo::geometry::{Affine, Rect, Transform};
use vireo::inherit::InheritFromParent;
use vireo::pass::{PassCommand, PixelBox, PixelRect, ShapePipeline, TextStencilMode};
use vireo::renderer::{subtree_box, AttachmentPlan, BufferKind, Renderer};
use vireo::stencil::{plan_stencil, uses_stencil};
use vireo::transform_table::{transform_key, TransformTable};

type Color = [u32; 4];

fn bits(v: f32) -> u32 {
    v.to_bits()
}

fn float(v: u32) -> f32 {
    f32::from_bits(v)
}

fn rect(x: f32, y: f32, w: f32, h: f32) -> Rect {
    Rect::new(bits(x), bits(y), bits(w), bits(h))
}

fn affine_of(t: Transform) -> Affine {
    let (a, b, c, d) = (float(t.a), float(t.b), float(t.c), float(t.d));
    let (px, py) = (float(t.px), float(t.py));
    Affine {
        a: t.a,
        c: t.c,
        b: t.b,
        d: t.d,
        tx: bits(float(t.x) - (a * px + b * py)),
        ty: bits(float(t.y) - (c * px + d * py)),
    }
}

fn product(l: Affine, r: Affine) -> Affine {
    let (a, b, c, d) = (float(l.a), float(l.b), float(l.c), float(l.d));
    Affine {
        a: bits(a * float(r.a) + b * float(r.c)),
        b: bits(a * float(r.b) + b * float(r.d)),
        c: bits(c * float(r.a) + d * float(r.c)),
        d: bits(c * float(r.b) + d * float(r.d)),
        tx: bits(a * float(r.tx) + b * float(r.ty) + float(l.tx)),
        ty: bits(c * float(r.tx) + d * float(r.ty) + float(l.ty)),
    }
}

fn mul(t: Transform, m: Affine) -> Affine {
    product(affine_of(t), m)
}

fn then(t: Transform, u: Transform) -> Transform {
    let m = product(affine_of(t), affine_of(u));
    Transform::matrix(m.a, m.b, m.c, m.d, m.tx, m.ty)
}

fn push(parent: &mut DrawBatch, child: DrawBatch) {
    parent.push_child(child, &mul, &then);
}

fn brush(b: &DrawBatch) -> Transform {
    b.transform.unwrap_or(Transform::identity())
}

fn current(b: &DrawBatch) -> Affine {
    affine_of(brush(b))
}

/// Draws with the brush moved by `(x, y)`, and puts the brush back.
fn placed(b: &mut DrawBatch, x: f32, y: f32, f: impl Fn(&mut DrawBatch, Affine)) {
    let whole = then(brush(b), Transform::translation(bits(x), bits(y)));
    let saved = b.begin_override(
        ShapeOverride {
            color: None,
            sdf_feather: None,
            uv: None,
            transform: Some(whole),
            bind_group: None,
        },
        false,
    );
    f(b, affine_of(whole));
    b.end_override(saved);
}

fn quad(b: &mut DrawBatch, corners: [(f32, f32); 4], ty: u32, color: Color, at: Affine) {
    let first = b.vertices.len() as u32;
    for (x, y) in corners {
        match b.sdf_feather {
            Some(f) => b.push_sdf_vertex(bits(x), bits(y), 0, 0, color, [0; 4], ty, f, at),
            None => b.push_vertex(bits(x), bits(y), color, at),
        }
    }
    b.indices.extend([first, first + 1, first + 2, first, first + 2, first + 3]);
}

fn draw_rectangle(b: &mut DrawBatch, x: f32, y: f32, w: f32, h: f32, color: Color) {
    placed(b, x, y, |b, at| quad(b, [(0.0, 0.0), (w, 0.0), (w, h), (0.0, h)], 2, color, at));
}

fn draw_circle(b: &mut DrawBatch, x: f32, y: f32, r: f32, color: Color) {
    if b.sdf_feather.is_some() {
        placed(b, x, y, |b, at| quad(b, [(-r, -r), (r, -r), (r, r), (-r, r)], 1, color, at));
    } else {
        placed(b, x, y, |b, at| {
            let first = b.vertices.len() as u32;
            b.push_vertex(bits(0.0), bits(0.0), color, at);
            for k in 0..8u32 {
                let turn = k as f32 * std::f32::consts::TAU / 8.0;
                b.push_vertex(bits(r * turn.cos()), bits(r * turn.sin()), color, at);
                b.indices.extend([first, first + 1 + k, first + 1 + (k + 1) % 8]);
            }
        });
    }
}

fn draw_triangle(b: &mut DrawBatch, points: [(f32, f32); 3], color: Color) {
    let at = current(b);
    let first = b.vertices.len() as u32;
    for (x, y) in points {
        match b.sdf_feather {
            Some(f) => b.push_sdf_vertex(bits(x), bits(y), 0, 0, color, [0; 4], 4, f, at),
            None => b.push_vertex(bits(x), bits(y), color, at),
        }
    }
    b.indices.extend([first, first + 1, first + 2]);
}

fn draw_polygon(b: &mut DrawBatch, points: &[(f32, f32)], color: Color) {
    let start = b.next_edge() as f32;
    let feather = b.sdf_feather.unwrap();
    let at = current(b);
    let first = b.vertices.len() as u32;
    for (x, y) in points {
        let params = [bits(start), bits(points.len() as f32), 0, 0];
        b.push_sdf_vertex(bits(*x), bits(*y), 0, 0, color, params, 6, feather, at);
    }
    for k in 1..points.len() as u32 - 1 {
        b.indices.extend([first, first + k, first + k + 1]);
    }
    for _ in points {
        b.polygon_edges.extend([0, 0, 0, 0]);
    }
}

fn instance_of(ty: u32, w: f32, h: f32) -> InstanceShape {
    InstanceShape {
        bounds: [bits(0.0), bits(0.0), bits(w), bits(h)],
        uv_bounds: [0; 4],
        corner_uv: [0; 8],
        sdf_params: [0; 4],
        sdf_type: ty,
        sdf_extra: [0; 2],
    }
}

fn instance(b: &mut DrawBatch, ty: u32, x: f32, y: f32, w: f32, h: f32, color: Color) {
    let place = product(current(b), affine_of(Transform::translation(bits(x), bits(y))));
    if !b.push_sdf_instance(instance_of(ty, w, h), Some(color), place) {
        match ty {
            1 => draw_circle(b, x, y, w, color),
            _ => draw_rectangle(b, x, y, w, h, color),
        }
    }
}

fn place_of(b: &DrawBatch, row: u32) -> (f32, f32) {
    let m = b.transforms.matrix(row);
    (float(m.tx), float(m.ty))
}

fn world(b: &DrawBatch, row: u32, x: f32, y: f32) -> (f32, f32) {
    let m = b.transforms.matrix(row);
    (
        float(m.a) * x + float(m.b) * y + float(m.tx),
        float(m.c) * x + float(m.d) * y + float(m.ty),
    )
}

fn corners(b: &DrawBatch) -> Vec<(f32, f32)> {
    let mut points: Vec<(f32, f32)> = b
        .vertices
        .iter()
        .map(|v| world(b, v.transform_index, float(v.position[0]), float(v.position[1])))
        .collect();
    for i in &b.instances {
        for (x, y) in [(0, 1), (2, 1), (2, 3), (0, 3)] {
            points.push(world(
                b,
                i.shape.transform_index,
                float(i.shape.bounds[x]),
                float(i.shape.bounds[y]),
            ));
        }
    }
    for t in &b.texts {
        points.push(world(b, t.transform_index, 10.0, 10.0));
    }
    points
}

type Box4 = (f32, f32, f32, f32);

fn own_box(b: &DrawBatch) -> Option<Box4> {
    let points = corners(b);
    if points.is_empty() {
        return None;
    }
    let x0 = points.iter().map(|p| p.0).fold(f32::INFINITY, f32::min);
    let y0 = points.iter().map(|p| p.1).fold(f32::INFINITY, f32::min);
    let x1 = points.iter().map(|p| p.0).fold(f32::NEG_INFINITY, f32::max);
    let y1 = points.iter().map(|p| p.1).fold(f32::NEG_INFINITY, f32::max);
    Some((x0, y0, x1, y1))
}

fn meets(b: Box4, screen: Box4) -> bool {
    b.0 < screen.2 && b.2 > screen.0 && b.1 < screen.3 && b.3 > screen.1
}

/// What a renderer would work out of each batch, in preorder.
fn hints(b: &DrawBatch, screen: Box4, out: &mut Vec<BatchHint>) {
    let own = own_box(b);
    let given = match b.bounds {
        Some(Some(r)) => {
            let (x, y, w, h) = (float(r.x), float(r.y), float(r.w), float(r.h));
            meets((x, y, x + w, y + h), screen)
        }
        _ => true,
    };
    let points = corners(b);
    let square = match own {
        Some((x0, y0, x1, y1))
            if points.len() == 4
                && points.iter().all(|p| (p.0 == x0 || p.0 == x1) && (p.1 == y0 || p.1 == y1)) =>
        {
            Some(rect(x0, y0, x1 - x0, y1 - y0))
        }
        _ => None,
    };
    out.push(BatchHint {
        bounds_on_screen: given,
        computed_on_screen: own.map(|o| meets(o, screen)),
        rectangle: square,
    });
    for c in &b.children {
        hints(c, screen, out);
    }
}

fn events(b: &DrawBatch, screen: Option<Box4>) -> Vec<DrawEvent<'_>> {
    let mut h = Vec::new();
    hints(b, screen.unwrap_or((0.0, 0.0, 0.0, 0.0)), &mut h);
    let mut out = Vec::new();
    b.flatten_events(&mut out, 0, screen.is_some(), &h, 0);
    out
}

const SCREEN: Option<Box4> = Some((0.0, 0.0, 800.0, 600.0));

#[test]
fn has_sdf_flag_set_on_sdf_shapes() {
    let mut b = DrawBatch::new();
    b.sdf_feather = Some(bits(1.0));
    draw_rectangle(&mut b, 0.0, 0.0, 10.0, 10.0, RED);
    assert!(b.has_sdf);
    b.clear();
    assert!(!b.has_sdf);
    b.sdf_feather = None;
    draw_rectangle(&mut b, 0.0, 0.0, 10.0, 10.0, RED);
    assert!(!b.has_sdf);
}

#[test]
fn transform_index_stable_across_same_transform() {
    let mut b = DrawBatch::new();
    b.sdf_feather = Some(bits(1.0));
    b.set_position(bits(10.0), bits(20.0));
    draw_rectangle(&mut b, 0.0, 0.0, 5.0, 5.0, RED);
    draw_circle(&mut b, 0.0, 0.0, 3.0, BLUE);
    let idxs: Vec<u32> = b.vertices.iter().map(|v| v.transform_index).collect();
    assert!(idxs.iter().all(|&i| i == idxs[0]));
    assert_eq!(b.transforms.rows().len() / 12, 2);
}

#[test]
fn transform_cache_invalidates_on_set_position() {
    let mut b = DrawBatch::new();
    b.sdf_feather = Some(bits(1.0));
    draw_rectangle(&mut b, 0.0, 0.0, 5.0, 5.0, RED);
    draw_rectangle(&mut b, 100.0, 0.0, 5.0, 5.0, BLUE);
    let i0 = b.vertices[0].transform_index;
    let i1 = b.vertices[4].transform_index;
    assert_ne!(i0, i1);
    assert_eq!(b.transforms.rows().len() / 12, 2);
    assert_eq!(i0, 0);
    assert_eq!(i1, 1);
}

#[test]
fn transform_slot_zero_is_identity_after_shape() {
    let mut b = DrawBatch::new();
    draw_rectangle(&mut b, 100.0, 200.0, 50.0, 40.0, WHITE);
    let rows: Vec<f32> = b.transforms.rows().iter().map(|v| float(*v)).collect();
    assert!(rows.len() >= 12);
    let t0 = &rows[0..12];
    assert_eq!(t0[0], 1.0);
    assert_eq!(t0[5], 1.0);
    assert_eq!(t0[8], 0.0);
    assert_eq!(t0[9], 0.0);
    assert_eq!(b.vertices[0].transform_index, 1);
    let t1 = &rows[12..24];
    assert!((t1[8] - 100.0).abs() < 1e-4);
    assert!((t1[9] - 200.0).abs() < 1e-4);
    let at = current(&b);
    b.push_text(0, at);
    assert_eq!(b.texts[0].transform_index, 0);
}

#[test]
fn multi_batch_poly_base_patch_values() {
    let mut b0 = DrawBatch::new();
    b0.sdf_feather = Some(bits(1.0));
    let pts = [(0., 0.), (10., 0.), (5., 8.)];
    draw_polygon(&mut b0, &pts, RED);
    let edges0 = b0.polygon_edges.len() / 4;

    let mut b1 = DrawBatch::new();
    b1.sdf_feather = Some(bits(1.0));
    draw_polygon(&mut b1, &pts, BLUE);
    let start_local = float(b1.vertices[0].sdf_params[0]);
    assert_eq!(start_local, 0.0);

    let poly_base = edges0 as f32;
    let list = vec![
        DrawEvent::Batch { batch: &b0, auto_scissor: None },
        DrawEvent::Batch { batch: &b1, auto_scissor: None },
    ];
    let frame = build_frame(&list, bits(100.0), bits(100.0));
    let mut patched = frame.vertices.clone();
    for shift in &frame.vertex_shifts {
        let v = &mut patched[shift.at as usize];
        v.sdf_params[0] = bits(float(v.sdf_params[0]) + shift.by as f32);
    }
    assert_eq!(float(patched[3].sdf_params[0]), poly_base);
    assert_eq!(float(patched[0].sdf_params[0]), 0.0);
}

fn cols(a: [f32; 3], b: [f32; 3], t: [f32; 3]) -> Affine {
    Affine {
        a: bits(a[0]),
        c: bits(a[1]),
        b: bits(b[0]),
        d: bits(b[1]),
        tx: bits(t[0]),
        ty: bits(t[1]),
    }
}

#[test]
fn transform_key_distinguishes_similar_matrices() {
    let k1 = transform_key(cols([1.0, 0.0, 0.0], [0.0, 1.0, 0.0], [0.0, 0.0, 1.0]));
    let k2 = transform_key(cols([1.0, 0.0, 0.0], [0.0, 1.0, 0.0], [1.0, 0.0, 1.0]));
    let k3 = transform_key(cols([2.0, 0.0, 0.0], [0.0, 2.0, 0.0], [0.0, 0.0, 1.0]));
    assert_ne!(k1, k2);
    assert_ne!(k1, k3);
    assert_ne!(k2, k3);
}

#[test]
fn transform_rows_are_padded_and_found_again() {
    let mut table = TransformTable::new();
    let m = cols([1.0, 2.0, 0.0], [3.0, 4.0, 0.0], [5.0, 6.0, 1.0]);
    assert_eq!(table.register(Affine::identity()), 0);
    assert_eq!(table.register(m), 1);
    assert_eq!(table.register(m), 1);
    assert_eq!(table.len(), 2);
    let row: Vec<f32> = table.rows()[12..].iter().map(|w| float(*w)).collect();
    assert_eq!(row, vec![1.0, 2.0, 0.0, 0.0, 3.0, 4.0, 0.0, 0.0, 5.0, 6.0, 1.0, 0.0]);
    table.multiply_rows(Transform::translation(bits(7.0), bits(8.0)), &|_, a| a);
    assert_eq!(float(table.rows()[22]), 1.0);
    table.seed_identity();
    assert_eq!(table.len(), 1);
    assert_eq!(table.register(m), 1);
}

#[test]
fn clear_preserves_vertex_capacity() {
    let mut b = DrawBatch::new();
    b.sdf_feather = Some(bits(1.0));
    for i in 0..32 {
        b.set_position(bits(i as f32), bits(0.0));
        draw_rectangle(&mut b, 0.0, 0.0, 4.0, 4.0, RED);
    }
    let cap_v = b.vertices.capacity();
    let cap_i = b.indices.capacity();
    b.clear();
    assert!(b.vertices.capacity() >= cap_v);
    assert!(b.indices.capacity() >= cap_i);
    assert!(b.vertices.is_empty());
    assert!(!b.has_sdf);
    assert_eq!(b.sdf_feather, Some(bits(1.0)));
}

#[test]
fn sdf_instances_store_one_record_per_shape() {
    let mut batch = DrawBatch::new();
    for i in 0..1000 {
        instance(&mut batch, 2, i as f32, 0.0, 8.0, 4.0, RED);
    }
    assert_eq!(batch.instances.len(), 1000);
    assert!(batch.vertices.is_empty());
    assert!(batch.indices.is_empty());
    assert!(batch.has_sdf);
}

#[test]
fn instance_shapes_capture_transform_and_position() {
    let mut batch = DrawBatch::new();
    batch.set_position(bits(10.0), bits(20.0));
    instance(&mut batch, 1, 5.0, 6.0, 3.0, 3.0, WHITE);
    let row = batch.instances[0].shape.transform_index;
    assert_ne!(row, 0);
    let translation = place_of(&batch, row);
    assert!((translation.0 - 15.0).abs() < 1e-5);
    assert!((translation.1 - 26.0).abs() < 1e-5);
}

#[test]
fn instance_geometry_mode_falls_back_to_vertices() {
    let mut batch = DrawBatch::new();
    batch.sdf_feather = None;
    instance(&mut batch, 1, 0.0, 0.0, 5.0, 5.0, WHITE);
    assert!(batch.instances.is_empty());
    assert!(!batch.vertices.is_empty());
    assert!(!batch.indices.is_empty());
}

#[test]
fn clear_preserves_instance_capacity() {
    let mut batch = DrawBatch::new();
    for i in 0..64 {
        instance(&mut batch, 1, i as f32, 0.0, 2.0, 3.0, BLUE);
    }
    let capacity = batch.instances.capacity();
    batch.clear();
    assert!(batch.instances.is_empty());
    assert!(batch.instances.capacity() >= capacity);
}

#[test]
fn to_area_expands_instances_to_legacy_quads() {
    let mut batch = DrawBatch::new();
    instance(&mut batch, 2, 3.0, 4.0, 10.0, 20.0, GREEN);
    match batch.to_area() {
        Area::Geom(geom) => {
            assert_eq!(geom.vertices.len(), 4);
            assert_eq!(geom.indices.len(), 6);
            assert_eq!(geom.vertices[0].sdf_type, 2);
        }
        _ => panic!("expected Area::Geom"),
    }
}

#[test]
fn extended_sdf_instances_do_not_expand_vertices() {
    let mut batch = DrawBatch::new();
    instance(&mut batch, 2, 1.0, 2.0, 20.0, 10.0, WHITE);
    instance(&mut batch, 3, 0.0, 0.0, 10.0, 5.0, WHITE);
    instance(&mut batch, 4, 0.0, 0.0, 10.0, 8.0, WHITE);
    instance(&mut batch, 5, 20.0, 20.0, 8.0, 8.0, WHITE);
    assert_eq!(batch.polygon_route(3, Some(WHITE)), ShapeRoute::Instance);
    let at = current(&batch);
    assert!(batch.push_edge_instance(&vec![bits(1.0); 12], 1, instance_of(6, 8.0, 6.0), Some(WHITE), at));
    assert_eq!(batch.line_chain_route(3, bits(2.0), Some(WHITE)), ShapeRoute::Instance);
    assert!(batch.push_edge_instance(&vec![bits(2.0); 8], 1, instance_of(7, 8.0, 2.0), Some(WHITE), at));
    assert_eq!(batch.instances.len(), 6);
    assert!(batch.vertices.is_empty());
    assert_eq!(batch.instances[0].shape.sdf_type, 2);
    assert_eq!(batch.instances[1].shape.sdf_type, 3);
    assert_eq!(batch.instances[2].shape.sdf_type, 4);
    assert_eq!(batch.instances[3].shape.sdf_type, 5);
    assert_eq!(batch.instances[4].shape.sdf_type, 6);
    assert_eq!(batch.instances[5].shape.sdf_type, 7);
    assert!(!batch.polygon_edges.is_empty());
}

#[test]
fn tree_without_clips_has_no_pops() {
    let mut root = DrawBatch::new();
    let mut child = DrawBatch::new();
    push(&mut child, DrawBatch::new());
    push(&mut root, child);
    let (mut plain, mut popped) = (Vec::new(), Vec::new());
    root.walk_preorder(&mut plain);
    root.flatten_with_pop(&mut popped);
    assert_eq!(plain.len(), 3);
    assert_eq!(popped.len(), 3);
    assert!(popped.iter().all(|b| b.is_some()));
    root.clips_children = true;
    let mut popped = Vec::new();
    root.flatten_with_pop(&mut popped);
    assert_eq!(popped.len(), 4);
    assert!(popped[3].is_none());
}

#[test]
fn walk_preorder_parent_before_children() {
    let mut parent = DrawBatch::new();
    draw_rectangle(&mut parent, 0.0, 0.0, 10.0, 10.0, RED);
    let mut c0 = DrawBatch::new();
    draw_circle(&mut c0, 0.0, 0.0, 3.0, GREEN);
    let mut c1 = DrawBatch::new();
    draw_rectangle(&mut c1, 1.0, 1.0, 2.0, 2.0, BLUE);
    push(&mut parent, c0);
    push(&mut parent, c1);
    let mut flat = Vec::new();
    parent.walk_preorder(&mut flat);
    assert_eq!(flat.len(), 3);
    assert_eq!(flat[0].vertices.len(), 4);
    assert_eq!(flat[1].vertices.len() > 0, true);
    assert_eq!(flat[2].vertices.len(), 4);
    assert!(parent.has_drawable_content());
}

#[test]
fn translate_and_draw_share_cached_index() {
    let mut b = DrawBatch::new();
    b.sdf_feather = Some(bits(1.0));
    b.set_position(bits(1.0), bits(2.0));
    let at = current(&b);
    let i0 = b.current_transform_index(at);
    let i1 = b.current_transform_index(at);
    assert_eq!(i0, i1);
    b.set_position(bits(1.0 + 3.0), bits(2.0 + 4.0));
    let at = current(&b);
    let i2 = b.current_transform_index(at);
    assert_ne!(i0, i2);
}

#[test]
fn inherit_transform_left_muls_child_table() {
    let mut parent = DrawBatch::new();
    parent.set_position(bits(100.0), bits(50.0));
    let mut child = DrawBatch::new();
    child.sdf_feather = Some(bits(1.0));
    child.inherit = InheritFromParent::transform_only();
    draw_rectangle(&mut child, 0.0, 0.0, 10.0, 10.0, RED);
    let idx = child.vertices[0].transform_index;
    let base = idx as usize * 12;
    assert_eq!(float(child.transforms.rows()[base]), 1.0);
    assert_eq!(float(child.transforms.rows()[base + 8]), 0.0);
    push(&mut parent, child);
    let (tx, ty) = place_of(&parent.children[0], idx);
    assert!((tx - 100.0).abs() < 1e-4, "tx={}", tx);
    assert!((ty - 50.0).abs() < 1e-4, "ty={}", ty);
}

#[test]
fn inherit_color_and_feather_on_push() {
    let mut parent = DrawBatch::new();
    parent.color = GREEN;
    parent.sdf_feather = Some(bits(2.5));
    let mut child = DrawBatch::new();
    child.inherit = InheritFromParent::none().color().sdf_feather();
    assert_eq!(child.color, WHITE);
    push(&mut parent, child);
    assert_eq!(parent.children[0].color, GREEN);
    assert_eq!(parent.children[0].sdf_feather, Some(bits(2.5)));
}

fn nested_clips() -> DrawBatch {
    let mut root = DrawBatch::new();
    root.clips_children = true;
    draw_rectangle(&mut root, -10.0, -10.0, 20.0, 20.0, RED);
    let mut mid = DrawBatch::new();
    mid.clips_children = true;
    mid.inherit = InheritFromParent::transform_only();
    draw_circle(&mut mid, 0.0, 0.0, 8.0, GREEN);
    let mut leaf = DrawBatch::new();
    leaf.inherit = InheritFromParent::transform_only();
    draw_rectangle(&mut leaf, -2.0, -2.0, 4.0, 4.0, BLUE);
    push(&mut mid, leaf);
    push(&mut root, mid);
    root
}

#[test]
fn nested_clips_flatten_emits_two_pops() {
    let root = nested_clips();
    let mut flat: Vec<Option<&DrawBatch>> = Vec::new();
    root.flatten_with_pop(&mut flat);
    assert_eq!(flat.len(), 5);
    assert!(flat[0].is_some());
    assert!(flat[1].is_some());
    assert!(flat[2].is_some());
    assert!(flat[3].is_none());
    assert!(flat[4].is_none());
    assert!(flat[0].unwrap().clips_children);
    assert!(flat[1].unwrap().clips_children);
    assert!(!flat[2].unwrap().clips_children);
}

#[test]
fn nested_clips_stencil_ref_sequence() {
    let root = nested_clips();
    let list = events(&root, None);
    let ops: Vec<(u32, u32)> =
        plan_stencil(&list).iter().map(|u| (u.op, u.reference)).collect();
    assert_eq!(ops, vec![(1, 0), (1, 1), (2, 2), (3, 2), (3, 1)]);
}

#[test]
fn nested_text_and_shape_share_composed_transform() {
    let mut root = DrawBatch::new();
    root.sdf_feather = Some(bits(1.0));
    root.set_position(bits(230.0), bits(270.0));
    root.clips_children = true;
    draw_rectangle(&mut root, 0.0, 0.0, 300.0, 260.0, RED);

    let mut mid = DrawBatch::new();
    mid.sdf_feather = Some(bits(1.0));
    mid.set_position(bits(40.0), bits(0.0));
    mid.clips_children = true;
    mid.inherit = InheritFromParent::transform_only();
    draw_circle(&mut mid, 0.0, 0.0, 90.0, GREEN);

    let mut leaf = DrawBatch::new();
    leaf.sdf_feather = Some(bits(1.0));
    leaf.inherit = InheritFromParent::transform_only();
    draw_circle(&mut leaf, 0.0, 0.0, 18.0, WHITE);
    let at = current(&leaf);
    leaf.push_text(2, at);

    push(&mut mid, leaf);
    let at = current(&mid);
    mid.push_text(1, at);
    push(&mut root, mid);
    let at = current(&root);
    root.push_text(0, at);

    assert_eq!(root.texts.len(), 1);
    assert_eq!(root.texts[0].transform_index, root.vertices[0].transform_index);
    let (rtx, rty) = place_of(&root, root.texts[0].transform_index);
    assert!((rtx - 230.0).abs() < 1e-3, "root tx={rtx}");
    assert!((rty - 270.0).abs() < 1e-3, "root ty={rty}");

    let mid = &root.children[0];
    assert_eq!(mid.texts.len(), 1);
    assert_eq!(mid.texts[0].transform_index, mid.vertices[0].transform_index);
    let (mtx, mty) = place_of(mid, mid.texts[0].transform_index);
    assert!((mtx - 270.0).abs() < 1e-3 && (mty - 270.0).abs() < 1e-3);

    let leaf = &root.children[0].children[0];
    assert_eq!(leaf.texts.len(), 1);
    assert_eq!(leaf.texts[0].transform_index, leaf.vertices[0].transform_index);
    let (ltx, lty) = place_of(leaf, leaf.texts[0].transform_index);
    assert!((ltx - 270.0).abs() < 1e-3 && (lty - 270.0).abs() < 1e-3);

    let (dx, dy) = (ltx - 40.0 - 270.0, lty - 14.0 - 270.0);
    assert!((dx * dx + dy * dy).sqrt() < 90.0);
}

#[test]
fn inherit_transform_text_only_child_gets_table_entry() {
    let mut parent = DrawBatch::new();
    parent.set_position(bits(100.0), bits(50.0));
    draw_rectangle(&mut parent, -10.0, -10.0, 20.0, 20.0, RED);

    let mut child = DrawBatch::new();
    child.inherit = InheritFromParent::transform_only();
    let at = current(&child);
    child.push_text(0, at);
    assert!(!child.transforms.rows().is_empty());
    let (tx0, ty0) = place_of(&child, child.texts[0].transform_index);
    assert!(tx0.abs() < 1e-5 && ty0.abs() < 1e-5);

    push(&mut parent, child);
    let c = &parent.children[0];
    let (tx, ty) = place_of(c, c.texts[0].transform_index);
    assert!((tx - 100.0).abs() < 1e-3, "tx={tx}");
    assert!((ty - 50.0).abs() < 1e-3, "ty={ty}");
}

#[test]
fn text_before_shape_shares_transform_index() {
    let mut b = DrawBatch::new();
    b.set_position(bits(12.0), bits(34.0));
    let at = current(&b);
    b.push_text(0, at);
    draw_rectangle(&mut b, 0.0, 0.0, 4.0, 4.0, RED);
    assert_eq!(b.texts[0].transform_index, b.vertices[0].transform_index);
    let (tx, ty) = place_of(&b, b.texts[0].transform_index);
    assert!((tx - 12.0).abs() < 1e-4 && (ty - 34.0).abs() < 1e-4);
}

#[test]
fn draw_order_parent_text_before_children() {
    let mut root = DrawBatch::new();
    root.clips_children = true;
    draw_rectangle(&mut root, 0.0, 0.0, 10.0, 10.0, RED);
    let at = current(&root);
    root.push_text(0, at);

    let mut child = DrawBatch::new();
    child.inherit = InheritFromParent::transform_only();
    draw_rectangle(&mut child, 0.0, 0.0, 10.0, 10.0, BLUE);
    let at = current(&child);
    child.push_text(1, at);
    push(&mut root, child);

    let mut flat: Vec<Option<&DrawBatch>> = Vec::new();
    root.flatten_with_pop(&mut flat);
    assert_eq!(flat.len(), 3);
    assert!(!flat[0].unwrap().texts.is_empty());
    assert!(!flat[1].unwrap().texts.is_empty());
    assert!(flat[2].is_none());
    assert!(flat[0].unwrap().clips_children);
}

#[test]
fn area_flatten_include_emits_cover_and_erase() {
    let mut b = DrawBatch::new();
    draw_rectangle(&mut b, 0.0, 0.0, 4.0, 4.0, WHITE);
    let mut include_batch = DrawBatch::new();
    draw_rectangle(&mut include_batch, 0.0, 0.0, 100.0, 100.0, WHITE);
    b.area_include = Some(include_batch.to_area());

    let list = events(&b, None);
    assert_eq!(list.len(), 3);
    assert!(matches!(list[0], DrawEvent::AreaOp { is_setup: true, .. }));
    assert!(matches!(list[1], DrawEvent::Batch { .. }));
    assert!(matches!(list[2], DrawEvent::AreaOp { is_setup: false, .. }));
}

#[test]
fn area_flatten_with_clips_children() {
    let mut root = DrawBatch::new();
    root.clips_children = true;
    draw_rectangle(&mut root, 0.0, 0.0, 10.0, 10.0, RED);
    let mut incl = DrawBatch::new();
    draw_rectangle(&mut incl, 0.0, 0.0, 100.0, 100.0, RED);
    root.area_include = Some(incl.to_area());

    let mut child = DrawBatch::new();
    child.inherit = InheritFromParent::transform_only();
    draw_rectangle(&mut child, 0.0, 0.0, 4.0, 4.0, GREEN);
    push(&mut root, child);

    let list = events(&root, None);
    assert_eq!(list.len(), 5);
    assert!(matches!(list[0], DrawEvent::AreaOp { is_setup: true, .. }));
    assert!(matches!(list[1], DrawEvent::Batch { .. }));
    assert!(matches!(list[2], DrawEvent::Batch { .. }));
    assert!(matches!(list[3], DrawEvent::StencilPop));
    assert!(matches!(list[4], DrawEvent::AreaOp { is_setup: false, .. }));
}

#[test]
fn area_flatten_empty_skips_ops() {
    let mut b = DrawBatch::new();
    draw_rectangle(&mut b, 0.0, 0.0, 4.0, 4.0, WHITE);
    b.area_include = Some(Area::Empty);
    let list = events(&b, None);
    assert_eq!(list.len(), 1);
    assert!(matches!(list[0], DrawEvent::Batch { .. }));
}

#[test]
fn area_plus_clips_child_stencil_ref_not_double_counted() {
    let mut parent = DrawBatch::new();
    parent.clips_children = true;
    draw_rectangle(&mut parent, 0.0, 0.0, 100.0, 100.0, RED);
    let mut incl = DrawBatch::new();
    draw_circle(&mut incl, 50.0, 50.0, 40.0, WHITE);
    parent.area_include = Some(incl.to_area());
    let mut child = DrawBatch::new();
    child.inherit = InheritFromParent::none();
    draw_rectangle(&mut child, 10.0, 10.0, 20.0, 20.0, GREEN);
    push(&mut parent, child);

    let list = events(&parent, None);
    let uses = plan_stencil(&list);
    let mut parent_push_ref: Option<u32> = None;
    let mut child_test_ref: Option<u32> = None;
    for u in &uses {
        match u.op {
            1 => parent_push_ref = Some(u.reference),
            2 => child_test_ref = Some(u.reference),
            _ => {}
        }
    }
    assert_eq!(parent_push_ref, Some(1), "parent Push ref");
    assert_eq!(child_test_ref, Some(2), "child Test must be 2 not 3");
}

#[test]
fn bounds_culls_offscreen_subtree() {
    let mut b = DrawBatch::new();
    b.bounds = Some(Some(rect(9999.0, 9999.0, 10.0, 10.0)));
    draw_rectangle(&mut b, 0.0, 0.0, 4.0, 4.0, WHITE);
    assert!(events(&b, SCREEN).is_empty());
}

#[test]
fn bounds_keeps_onscreen_subtree() {
    let mut b = DrawBatch::new();
    b.bounds = Some(Some(rect(100.0, 100.0, 50.0, 50.0)));
    draw_rectangle(&mut b, 0.0, 0.0, 4.0, 4.0, WHITE);
    let list = events(&b, SCREEN);
    assert_eq!(list.len(), 1);
    assert!(matches!(list[0], DrawEvent::Batch { .. }));
}

#[test]
fn auto_aabb_culls_offscreen_vertices() {
    let mut b = DrawBatch::new();
    b.set_position(bits(9999.0), bits(9999.0));
    draw_rectangle(&mut b, 0.0, 0.0, 4.0, 4.0, WHITE);
    assert!(events(&b, SCREEN).is_empty());
}

#[test]
fn empty_container_with_offscreen_children_recurse() {
    let mut parent = DrawBatch::new();
    let mut child = DrawBatch::new();
    child.inherit = InheritFromParent::transform_only();
    child.set_position(bits(9999.0), bits(9999.0));
    draw_rectangle(&mut child, 0.0, 0.0, 4.0, 4.0, WHITE);
    push(&mut parent, child);
    let list = events(&parent, SCREEN);
    assert_eq!(list.len(), 1);
    assert!(matches!(&list[0], DrawEvent::Batch { batch, .. } if batch.vertices.is_empty()));
}

#[test]
fn scissor_emits_scissor_events() {
    let mut b = DrawBatch::new();
    b.clips_children = true;
    b.scissor = Some(rect(10.0, 10.0, 200.0, 150.0));
    let mut child = DrawBatch::new();
    draw_rectangle(&mut child, 0.0, 0.0, 5.0, 5.0, WHITE);
    push(&mut b, child);
    let list = events(&b, None);
    assert_eq!(list.len(), 4);
    assert!(matches!(&list[0], DrawEvent::Batch { .. }));
    assert!(matches!(&list[1], DrawEvent::ScissorPush(r) if *r == rect(10.0, 10.0, 200.0, 150.0)));
    assert!(matches!(&list[2], DrawEvent::Batch { .. }));
    assert!(matches!(&list[3], DrawEvent::ScissorPop));
}

#[test]
fn scissor_without_clips_children_still_emits_scissor() {
    let mut b = DrawBatch::new();
    b.scissor = Some(rect(0.0, 0.0, 100.0, 100.0));
    b.clips_children = false;
    let mut child = DrawBatch::new();
    draw_rectangle(&mut child, 0.0, 0.0, 5.0, 5.0, WHITE);
    push(&mut b, child);
    let list = events(&b, None);
    assert_eq!(list.len(), 4);
    assert!(matches!(&list[0], DrawEvent::Batch { .. }));
    assert!(matches!(&list[1], DrawEvent::ScissorPush(_)));
    assert!(matches!(&list[2], DrawEvent::Batch { .. }));
    assert!(matches!(&list[3], DrawEvent::ScissorPop));
}

#[test]
fn scissor_does_not_set_uses_stencil() {
    let mut b = DrawBatch::new();
    b.clips_children = true;
    b.scissor = Some(rect(0.0, 0.0, 100.0, 100.0));
    draw_rectangle(&mut b, 0.0, 0.0, 10.0, 10.0, WHITE);
    let mut child = DrawBatch::new();
    draw_rectangle(&mut child, 0.0, 0.0, 5.0, 5.0, WHITE);
    push(&mut b, child);
    assert!(!uses_stencil(&events(&b, None)));
}

#[test]
fn auto_scissor_detects_single_rect() {
    let mut b = DrawBatch::new();
    b.sdf_feather = None;
    b.clips_children = true;
    draw_rectangle(&mut b, 0.0, 0.0, 100.0, 50.0, WHITE);
    let mut child = DrawBatch::new();
    draw_rectangle(&mut child, 0.0, 0.0, 5.0, 5.0, WHITE);
    push(&mut b, child);
    let list = events(&b, None);
    assert_eq!(list.len(), 4);
    assert!(matches!(&list[1], DrawEvent::ScissorPush(r) if (float(r.w) - 100.0).abs() < 1e-4));
    assert!(matches!(&list[3], DrawEvent::ScissorPop));
    assert!(list.iter().all(|e| !matches!(e, DrawEvent::StencilPop)));
}

#[test]
fn auto_scissor_ignores_nonrect() {
    let mut b = DrawBatch::new();
    b.clips_children = true;
    draw_triangle(&mut b, [(0.0, 0.0), (100.0, 0.0), (0.0, 50.0)], WHITE);
    let mut child = DrawBatch::new();
    draw_rectangle(&mut child, 0.0, 0.0, 5.0, 5.0, WHITE);
    push(&mut b, child);
    assert!(events(&b, None).iter().any(|e| matches!(e, DrawEvent::StencilPop)));
}

#[test]
fn auto_scissor_no_children_skips_scissor_events() {
    let mut b = DrawBatch::new();
    b.sdf_feather = None;
    b.clips_children = true;
    draw_rectangle(&mut b, 0.0, 0.0, 100.0, 50.0, WHITE);
    let list = events(&b, None);
    assert_eq!(list.len(), 1);
    assert!(matches!(&list[0], DrawEvent::Batch { .. }));
}

#[test]
fn auto_scissor_requires_clips_children() {
    let mut b = DrawBatch::new();
    b.clips_children = false;
    draw_rectangle(&mut b, 0.0, 0.0, 100.0, 50.0, WHITE);
    let mut child = DrawBatch::new();
    draw_rectangle(&mut child, 0.0, 0.0, 5.0, 5.0, WHITE);
    push(&mut b, child);
    let list = events(&b, None);
    assert_eq!(list.len(), 2);
    assert!(matches!(&list[0], DrawEvent::Batch { .. }));
    assert!(matches!(&list[1], DrawEvent::Batch { .. }));
}

#[test]
fn stencil_pop_when_children_all_culled() {
    let mut parent = DrawBatch::new();
    parent.clips_children = true;
    draw_triangle(&mut parent, [(0.0, 0.0), (100.0, 0.0), (0.0, 50.0)], RED);
    let mut child = DrawBatch::new();
    child.bounds = Some(Some(rect(9999.0, 9999.0, 4.0, 4.0)));
    draw_rectangle(&mut child, 0.0, 0.0, 4.0, 4.0, WHITE);
    push(&mut parent, child);
    let list = events(&parent, SCREEN);
    assert!(matches!(&list[0], DrawEvent::Batch { .. }));
    assert!(
        list.iter().any(|e| matches!(e, DrawEvent::StencilPop)),
        "culled children must still emit StencilPop"
    );
}

#[test]
fn auto_aabb_culls_offscreen_pos() {
    let mut b = DrawBatch::new();
    draw_rectangle(&mut b, 9999.0, 9999.0, 4.0, 4.0, WHITE);
    assert!(events(&b, SCREEN).is_empty());
}

#[test]
fn auto_scissor_uses_pos_world_rect() {
    let mut b = DrawBatch::new();
    b.sdf_feather = None;
    b.clips_children = true;
    draw_rectangle(&mut b, 50.0, 60.0, 100.0, 50.0, WHITE);
    let mut child = DrawBatch::new();
    draw_rectangle(&mut child, 0.0, 0.0, 5.0, 5.0, WHITE);
    push(&mut b, child);
    let list = events(&b, None);
    assert_eq!(list.len(), 4);
    match &list[1] {
        DrawEvent::ScissorPush(r) => {
            assert!((float(r.x) - 50.0).abs() < 1e-3);
            assert!((float(r.y) - 60.0).abs() < 1e-3);
            assert!((float(r.w) - 100.0).abs() < 1e-3);
            assert!((float(r.h) - 50.0).abs() < 1e-3);
        }
        _ => panic!("expected ScissorPush"),
    }
}

#[test]
fn auto_scissor_skips_sdf_circle() {
    let mut b = DrawBatch::new();
    b.clips_children = true;
    b.sdf_feather = Some(bits(1.0));
    draw_circle(&mut b, 100.0, 100.0, 40.0, WHITE);
    let mut child = DrawBatch::new();
    draw_rectangle(&mut child, 0.0, 0.0, 5.0, 5.0, WHITE);
    push(&mut b, child);
    let list = events(&b, None);
    assert!(list.iter().any(|e| matches!(e, DrawEvent::StencilPop)));
    assert!(list.iter().all(|e| !matches!(e, DrawEvent::ScissorPush(_))));
}

#[test]
fn text_only_batch_not_culled_when_onscreen() {
    let mut b = DrawBatch::new();
    let at = current(&b);
    b.push_text(0, at);
    assert_eq!(events(&b, SCREEN).len(), 1);
}

#[test]
fn custom_material_new_and_clear_are_none() {
    let mut b = DrawBatch::new();
    assert!(b.custom_material.is_none());
    b.clear();
    assert!(b.custom_material.is_none());
}

#[test]
fn draw_batch_is_send() {
    fn assert_send<T: Send>() {}
    assert_send::<DrawBatch>();
}

#[test]
fn draw_batch_is_sync() {
    fn assert_sync<T: Sync>() {}
    assert_sync::<DrawBatch>();
}

// ---------------------------------------------------------------------------
// Segments, overrides and copies
// ---------------------------------------------------------------------------

#[test]
fn texture_segments_tile_the_indices() {
    let mut b = DrawBatch::new();
    draw_rectangle(&mut b, 0.0, 0.0, 4.0, 4.0, RED);
    b.set_bind_group(Some(7));
    draw_rectangle(&mut b, 0.0, 0.0, 4.0, 4.0, RED);
    b.set_bind_group(None);
    let runs: Vec<(u32, u32, Option<u32>)> =
        b.texture_segments.iter().map(|s| (s.start, s.count, s.bind_group)).collect();
    assert_eq!(runs, vec![(0, 6, None), (6, 6, Some(7))]);
}

#[test]
fn line_chains_close_up() {
    assert_eq!(line_chain_segments(3, false), vec![(0, 1), (1, 2)]);
    assert_eq!(line_chain_segments(4, true), vec![(0, 1), (1, 2), (2, 0)]);
    assert_eq!(line_chain_segments(2, false), vec![(0, 1)]);
}

#[test]
fn routes_of_shapes() {
    let mut b = DrawBatch::new();
    let clear = [bits(1.0), bits(1.0), bits(1.0), bits(0.0)];
    assert_eq!(b.polygon_route(2, Some(RED)), ShapeRoute::Mesh);
    assert_eq!(b.polygon_route(3, Some(clear)), ShapeRoute::Skip);
    assert_eq!(b.line_chain_route(2, bits(0.0), Some(RED)), ShapeRoute::Mesh);
    b.custom_material = Some(1);
    assert_eq!(b.polygon_route(3, Some(RED)), ShapeRoute::Mesh);
}

#[test]
fn invisible_instances_are_left_out() {
    let mut b = DrawBatch::new();
    let clear = [bits(1.0), bits(1.0), bits(1.0), bits(-0.0)];
    let at = Affine::identity();
    assert!(b.push_sdf_instance(instance_of(1, 5.0, 5.0), Some(clear), at));
    assert!(b.push_sdf_instance(instance_of(1, 0.0, 5.0), Some(RED), at));
    assert!(b.instances.is_empty());
    assert!(b.push_edge_instance(&vec![], 1, instance_of(7, 5.0, 5.0), Some(RED), at));
    assert!(b.instances.is_empty());
}

#[test]
fn overrides_are_undone() {
    let mut b = DrawBatch::new();
    b.set_color(GREEN);
    b.set_position(bits(3.0), bits(4.0));
    let saved = b.begin_override(
        ShapeOverride {
            color: Some(BLACK),
            sdf_feather: Some(None),
            uv: None,
            transform: Some(Transform::translation(bits(9.0), bits(9.0))),
            bind_group: Some(Some(5)),
        },
        false,
    );
    assert_eq!(b.color, BLACK);
    assert_eq!(b.sdf_feather, None);
    assert_eq!(b.bind_group, Some(5));
    b.end_override(saved);
    assert_eq!(b.color, GREEN);
    assert_eq!(b.sdf_feather, Some(bits(1.0)));
    assert_eq!(b.transform, Some(Transform::translation(bits(3.0), bits(4.0))));
    assert_eq!(b.bind_group, None);
}

#[test]
fn copies_are_whole() {
    let root = nested_clips();
    let copy = root.clone_batch();
    assert_eq!(copy.vertices.len(), root.vertices.len());
    assert_eq!(copy.children[0].children[0].indices, root.children[0].children[0].indices);
    assert_eq!(copy.transforms.rows(), root.transforms.rows());
    assert_eq!(copy.subtree_size(), 3);
}

// ---------------------------------------------------------------------------
// Frames
// ---------------------------------------------------------------------------

#[test]
fn frame_merges_batches() {
    let mut a = DrawBatch::new();
    draw_rectangle(&mut a, 1.0, 0.0, 4.0, 4.0, RED);
    let mut b = DrawBatch::new();
    draw_rectangle(&mut b, 2.0, 0.0, 4.0, 4.0, BLUE);
    let list = vec![
        DrawEvent::Batch { batch: &a, auto_scissor: None },
        DrawEvent::Batch { batch: &b, auto_scissor: None },
    ];
    let frame = build_frame(&list, bits(100.0), bits(100.0));
    assert_eq!(frame.vertices.len(), 8);
    assert_eq!(frame.indices.len(), 12);
    assert_eq!(frame.transforms.len() / 12, 5);
    assert_eq!(frame.transforms[0..12], a.transforms.rows()[0..12]);
    assert_eq!(frame.vertices[0].transform_index, 2);
    assert_eq!(frame.vertices[4].transform_index, 4);
    assert_eq!(frame.shapes[1].as_ref().unwrap().base_vertex, 4);
    assert_eq!(frame.vertex_bytes(), 8 * 68);
    assert_eq!(frame.index_bytes(), 12 * 4);
}

#[test]
fn quads_of_a_material_are_counted_and_shifted() {
    let at = Affine::identity();
    let mut first = DrawBatch::new();
    assert!(first.push_edge_instance(&vec![bits(1.0); 12], 1, instance_of(6, 8.0, 6.0), Some(RED), at));
    let mut quads = DrawBatch::new();
    assert!(quads.push_sdf_instance(instance_of(2, 5.0, 5.0), Some(RED), at));
    assert!(quads.push_edge_instance(&vec![bits(2.0); 8], 1, instance_of(7, 8.0, 2.0), Some(RED), at));
    quads.custom_material = Some(1);
    let mut last = DrawBatch::new();
    draw_rectangle(&mut last, 1.0, 0.0, 4.0, 4.0, BLUE);
    let list = vec![
        DrawEvent::Batch { batch: &first, auto_scissor: None },
        DrawEvent::Batch { batch: &quads, auto_scissor: None },
        DrawEvent::Batch { batch: &last, auto_scissor: None },
    ];
    let frame = build_frame(&list, bits(100.0), bits(100.0));
    assert_eq!(frame.vertices.len(), 12);
    assert_eq!(frame.shapes[1].as_ref().unwrap().base_vertex, 0);
    assert_eq!(frame.shapes[2].as_ref().unwrap().base_vertex, 8);
    let shifts: Vec<(usize, u32)> = frame.vertex_shifts.iter().map(|s| (s.at, s.by)).collect();
    assert_eq!(shifts, vec![(4, 3), (5, 3), (6, 3), (7, 3)]);
    let shifts: Vec<(usize, u32)> = frame.instance_shifts.iter().map(|s| (s.at, s.by)).collect();
    assert_eq!(shifts, vec![(0, 0)]);
}

#[test]
fn clip_without_shapes_under_an_area_raises_nothing() {
    let mut incl = DrawBatch::new();
    draw_rectangle(&mut incl, 0.0, 0.0, 8.0, 8.0, WHITE);
    let mut root = DrawBatch::new();
    root.area_include = Some(incl.to_area());
    root.clips_children = true;
    root.scissor = Some(rect(0.0, 0.0, 4.0, 4.0));
    let mut child = DrawBatch::new();
    draw_rectangle(&mut child, 0.0, 0.0, 5.0, 5.0, WHITE);
    push(&mut root, child);
    let list = events(&root, None);
    let ops: Vec<(u32, u32)> = plan_stencil(&list).iter().map(|u| (u.op, u.reference)).collect();
    assert_eq!(ops, vec![(4, 0), (0, 0), (2, 1), (3, 1)]);
}

fn target(size: u32) -> Renderer {
    Renderer::new(size, size, size, size, bits(1.0), 1, false, false, bits(1.0))
}

#[test]
fn frame_without_content_is_not_sent() {
    let empty = DrawBatch::new();
    let list = vec![DrawEvent::Batch { batch: &empty, auto_scissor: None }];
    let boxes = vec![None];
    let texts = vec![Vec::new()];
    assert!(target(8).draw(&list, &boxes, &texts, false, bits(8.0), bits(8.0)).is_none());
    let plan = target(8).draw(&list, &boxes, &texts, true, bits(8.0), bits(8.0)).unwrap();
    assert!(plan.commands.iter().all(|c| !matches!(c, PassCommand::DrawIndexed { .. })));
    assert!(plan.opens_pass);
}

#[test]
fn frame_of_a_clip() {
    let mut root = DrawBatch::new();
    root.clips_children = true;
    root.sdf_feather = None;
    draw_triangle(&mut root, [(0.0, 0.0), (100.0, 0.0), (0.0, 50.0)], RED);
    let mut child = DrawBatch::new();
    draw_rectangle(&mut child, 0.0, 0.0, 5.0, 5.0, WHITE);
    push(&mut root, child);
    let list = events(&root, None);
    assert_eq!(list.len(), 3);
    let boxes = vec![None; 3];
    let texts = vec![Vec::new(), Vec::new(), Vec::new()];
    let plan = target(100).draw(&list, &boxes, &texts, false, bits(100.0), bits(100.0)).unwrap();
    assert!(plan.uses_stencil);
    let pipelines: Vec<ShapePipeline> = plan
        .commands
        .iter()
        .filter_map(|c| match c {
            PassCommand::BindShapes { pipeline, .. } => Some(*pipeline),
            _ => None,
        })
        .collect();
    assert_eq!(
        pipelines,
        vec![
            ShapePipeline::Stencil { geometry: true, op: 1 },
            ShapePipeline::Stencil { geometry: false, op: 2 },
            ShapePipeline::Stencil { geometry: true, op: 3 },
        ]
    );
}

#[test]
fn frame_of_a_scissor_cuts_and_restores() {
    let mut b = DrawBatch::new();
    b.scissor = Some(rect(10.0, 10.0, 20.0, 20.0));
    let mut child = DrawBatch::new();
    draw_rectangle(&mut child, 0.0, 0.0, 5.0, 5.0, WHITE);
    push(&mut b, child);
    let list = events(&b, None);
    let pixels = PixelBox { left: 10, top: 10, right: 30, bottom: 30 };
    let boxes = vec![None, Some(pixels), None, None];
    let texts = vec![Vec::new(), Vec::new(), Vec::new(), Vec::new()];
    let plan = target(100).draw(&list, &boxes, &texts, false, bits(100.0), bits(100.0)).unwrap();
    let cuts: Vec<PixelRect> = plan
        .commands
        .iter()
        .filter_map(|c| match c {
            PassCommand::SetScissor(r) => Some(*r),
            _ => None,
        })
        .collect();
    assert!(cuts.contains(&PixelRect { x: 10, y: 10, w: 20, h: 20 }));
    assert_eq!(cuts.last(), Some(&PixelRect { x: 0, y: 0, w: 100, h: 100 }));
}

#[test]
fn frame_draws_texts_where_their_batch_is() {
    let mut b = DrawBatch::new();
    let at = current(&b);
    b.push_text(0, at);
    let list = vec![DrawEvent::Batch { batch: &b, auto_scissor: None }];
    let runs = vec![vec![TextureSegment { start: 3, count: 2, bind_group: None }]];
    let plan = target(9).draw(&list, &vec![None], &runs, false, bits(9.0), bits(9.0)).unwrap();
    assert!(plan.commands.contains(&PassCommand::SetTextMode(TextStencilMode::Off)));
    assert!(plan.commands.iter().any(|c| matches!(
        c,
        PassCommand::DrawText { event: 0, start: 3, count: 2, .. }
    )));
}

#[test]
fn frame_draws_in_order() {
    let mut first = DrawBatch::new();
    draw_rectangle(&mut first, 0.0, 0.0, 5.0, 5.0, RED);
    let at = current(&first);
    first.push_text(0, at);
    let mut child = DrawBatch::new();
    draw_rectangle(&mut child, 0.0, 0.0, 5.0, 5.0, GREEN);
    push(&mut first, child);
    let mut second = DrawBatch::new();
    draw_rectangle(&mut second, 0.0, 0.0, 5.0, 5.0, BLUE);
    let mut h = Vec::new();
    hints(&first, (0.0, 0.0, 0.0, 0.0), &mut h);
    hints(&second, (0.0, 0.0, 0.0, 0.0), &mut h);
    let list = flatten_frame(&vec![&first, &second], false, &h);
    assert_eq!(list.len(), 3);
    let run = TextureSegment { start: 0, count: 1, bind_group: None };
    let texts = vec![vec![run], Vec::new(), Vec::new()];
    let plan = target(9).draw(&list, &vec![None; 3], &texts, false, bits(9.0), bits(9.0)).unwrap();
    let drawn: Vec<(usize, u32)> = plan
        .commands
        .iter()
        .filter_map(|c| match c {
            PassCommand::DrawIndexed { event, .. } => Some((*event, 0)),
            PassCommand::DrawInstances { event, .. } => Some((*event, 1)),
            PassCommand::DrawText { event, .. } => Some((*event, 2)),
            _ => None,
        })
        .collect();
    assert_eq!(drawn, vec![(0, 0), (0, 2), (1, 0), (2, 0)]);
}

#[test]
fn frame_of_nested_scissors_cuts_to_both() {
    let mut outer = DrawBatch::new();
    outer.scissor = Some(rect(10.0, 10.0, 40.0, 40.0));
    let mut inner = DrawBatch::new();
    inner.scissor = Some(rect(0.0, 30.0, 20.0, 90.0));
    let mut leaf = DrawBatch::new();
    draw_rectangle(&mut leaf, 0.0, 0.0, 5.0, 5.0, WHITE);
    push(&mut inner, leaf);
    push(&mut outer, inner);
    let mut after = DrawBatch::new();
    draw_rectangle(&mut after, 0.0, 0.0, 5.0, 5.0, WHITE);
    push(&mut outer, after);
    let list = events(&outer, None);
    let boxes: Vec<Option<PixelBox>> = list
        .iter()
        .map(|e| match e {
            DrawEvent::ScissorPush(r) => Some(PixelBox {
                left: float(r.x) as u32,
                top: float(r.y) as u32,
                right: (float(r.x) + float(r.w)) as u32,
                bottom: (float(r.y) + float(r.h)) as u32,
            }),
            _ => None,
        })
        .collect();
    let texts = vec![Vec::new(); list.len()];
    let plan = target(100).draw(&list, &boxes, &texts, false, bits(100.0), bits(100.0)).unwrap();
    let mut scissor = PixelRect { x: 0, y: 0, w: 100, h: 100 };
    let mut found = Vec::new();
    for c in &plan.commands {
        match c {
            PassCommand::SetScissor(r) => scissor = *r,
            PassCommand::DrawIndexed { .. } => found.push(scissor),
            _ => {}
        }
    }
    assert_eq!(
        found,
        vec![
            PixelRect { x: 10, y: 30, w: 10, h: 20 },
            PixelRect { x: 10, y: 10, w: 40, h: 40 },
        ]
    );
    assert_eq!(scissor, PixelRect { x: 0, y: 0, w: 100, h: 100 });
}

#[test]
fn frame_without_glyphs_opens_no_pass() {
    let mut b = DrawBatch::new();
    let at = current(&b);
    b.push_text(0, at);
    let list = vec![DrawEvent::Batch { batch: &b, auto_scissor: None }];
    let plan = target(9).draw(&list, &vec![None], &vec![Vec::new()], false, bits(9.0), bits(9.0)).unwrap();
    assert!(!plan.opens_pass);
}

#[test]
fn frame_of_trees_in_order() {
    let root = nested_clips();
    let mut other = DrawBatch::new();
    draw_rectangle(&mut other, 0.0, 0.0, 5.0, 5.0, WHITE);
    let mut h = Vec::new();
    hints(&root, (0.0, 0.0, 0.0, 0.0), &mut h);
    hints(&other, (0.0, 0.0, 0.0, 0.0), &mut h);
    let list = flatten_frame(&vec![&root, &other], false, &h);
    assert_eq!(list.len(), 6);
    assert!(matches!(list[5], DrawEvent::Batch { .. }));
}

#[test]
fn nested_masks_close_one_by_one() {
    let mut incl = DrawBatch::new();
    draw_rectangle(&mut incl, 0.0, 0.0, 100.0, 100.0, RED);
    let mut leaf = DrawBatch::new();
    draw_rectangle(&mut leaf, 0.0, 0.0, 5.0, 5.0, WHITE);
    leaf.area_include = Some(incl.to_area());
    let mut root = DrawBatch::new();
    draw_rectangle(&mut root, 0.0, 0.0, 5.0, 5.0, WHITE);
    root.area_include = Some(incl.to_area());
    push(&mut root, leaf);
    let mut after = DrawBatch::new();
    draw_rectangle(&mut after, 0.0, 0.0, 5.0, 5.0, WHITE);
    let mut list = events(&root, None);
    list.push(DrawEvent::Batch { batch: &after, auto_scissor: None });
    let uses = plan_stencil(&list);
    assert_eq!(uses.last().unwrap().op, 0);
}

// ---------------------------------------------------------------------------
// The renderer's own state
// ---------------------------------------------------------------------------

#[test]
fn attachments_follow_the_target() {
    let mut r = Renderer::new(10, 10, 20, 20, bits(2.0), 4, false, false, bits(1.0));
    assert!(matches!(r.msaa_view(), AttachmentPlan::Create(a) if a.width == 20 && a.sample_count == 4));
    assert_eq!(r.msaa_view(), AttachmentPlan::Reuse);
    assert!(matches!(r.ds_view(), AttachmentPlan::Create(_)));
    assert_eq!(r.ds_view(), AttachmentPlan::Reuse);
    r.resize(15, 15, 30, 30, bits(2.0), bits(1.0));
    assert!(matches!(r.ds_view(), AttachmentPlan::Create(a) if a.height == 30));
    r.update_aa(1, false, false);
    assert_eq!(r.msaa_view(), AttachmentPlan::Absent);
    assert!(matches!(r.ds_view(), AttachmentPlan::Create(a) if a.sample_count == 1));
}

#[test]
fn buffers_grow() {
    let mut r = Renderer::new(10, 10, 20, 20, bits(2.0), 1, false, false, bits(1.0));
    assert_eq!(r.ensure_buffer(BufferKind::Vertices, 0), None);
    assert_eq!(r.ensure_buffer(BufferKind::Vertices, 100), Some(128));
    assert_eq!(r.ensure_buffer(BufferKind::Vertices, 128), None);
    assert_eq!(r.ensure_buffer(BufferKind::Vertices, 129), Some(256));
    assert_eq!(r.ensure_buffer(BufferKind::Vertices, 1000), Some(1000));
    assert!(r.bind_storage());
    assert!(!r.bind_storage());
    assert_eq!(r.ensure_buffer(BufferKind::Edges, 16), Some(64));
    assert!(r.bind_storage());
    assert_eq!(r.ensure_buffer(BufferKind::Transforms, 20), Some(48));
    assert!(!r.storage_bound);
}

#[test]
fn boxes_of_subtrees_are_joined() {
    let join = |a: (i32, i32), b: (i32, i32)| (a.0.min(b.0), a.1.max(b.1));
    assert_eq!(subtree_box(None, &vec![None, None], &join), None);
    assert_eq!(subtree_box(None, &vec![None, Some((3, 5))], &join), Some((3, 5)));
    assert_eq!(subtree_box(Some((4, 9)), &vec![Some((3, 5)), None, Some((7, 11))], &join), Some((3, 11)));
}
