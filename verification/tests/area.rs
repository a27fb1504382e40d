//! Areas: simplification, and the stencil steps that mark and clear them.

use vireo::area::{effective_area, Area, AreaGeom, AreaStencilOp};
use vireo::colors::WHITE;
use vireo::vertex::Vertex;

fn bits(v: f32) -> u32 {
    v.to_bits()
}

fn quad_at(x: f32) -> AreaGeom {
    let idx = 0u32;
    AreaGeom {
        vertices: vec![
            Vertex::new_uv_xform(bits(x), bits(0.0), bits(0.0), bits(0.0), WHITE, idx),
            Vertex::new_uv_xform(bits(x + 1.0), bits(0.0), bits(0.0), bits(0.0), WHITE, idx),
            Vertex::new_uv_xform(bits(x + 1.0), bits(1.0), bits(0.0), bits(0.0), WHITE, idx),
            Vertex::new_uv_xform(bits(x), bits(1.0), bits(0.0), bits(0.0), WHITE, idx),
        ],
        indices: vec![0, 1, 2, 0, 2, 3],
        transform_table: [1.0, 0.0, 0.0, 0.0, 0.0, 1.0, 0.0, 0.0, 0.0, 0.0, 1.0, 0.0]
            .iter()
            .map(|v| bits(*v))
            .collect(),
        polygon_edges: Vec::new(),
        has_sdf: false,
        sdf_feather: None,
    }
}

fn unit_quad() -> AreaGeom {
    quad_at(0.0)
}

#[test]
fn simplify_union_full() {
    let a = Area::geom(unit_quad()).union(Area::Full);
    assert!(a.simplified().is_full());
}

#[test]
fn simplify_intersect_empty() {
    let a = Area::geom(unit_quad()).intersect(Area::Empty);
    assert!(a.simplified().is_empty());
}

#[test]
fn simplify_difference_full_exclude() {
    let a = Area::geom(unit_quad()).difference(Area::Full);
    assert!(a.simplified().is_empty());
}

#[test]
fn effective_none_none() {
    assert!(effective_area(None, None).is_none());
}

#[test]
fn effective_include_only() {
    let inc = Area::geom(unit_quad());
    let e = effective_area(Some(&inc), None).unwrap();
    assert!(matches!(e, Area::Geom(_)));
}

#[test]
fn effective_exclude_only_is_full_minus() {
    let exc = Area::geom(unit_quad());
    let e = effective_area(None, Some(&exc)).unwrap();
    assert!(matches!(e, Area::Difference(_, _)));
}

#[test]
fn compile_cover_geom_one_op() {
    let a = Area::geom(unit_quad());
    let mut ops = Vec::new();
    a.compile_cover(0, &mut ops);
    assert_eq!(ops.len(), 1);
    assert_eq!(ops[0].stencil_pipeline_op(), 4);
    assert_eq!(ops[0].stencil_ref(), 0);
}

#[test]
fn compile_union_two_covers() {
    let a = Area::geom(unit_quad()).union(Area::geom(unit_quad()));
    let mut ops = Vec::new();
    a.compile_cover(1, &mut ops);
    assert_eq!(ops.len(), 2);
    assert!(ops.iter().all(|o| o.stencil_ref() == 1));
}

#[test]
fn compile_difference_cover_then_erase() {
    let a = Area::geom(unit_quad()).difference(Area::geom(unit_quad()));
    let mut ops = Vec::new();
    a.compile_cover(0, &mut ops);
    assert_eq!(ops.len(), 2);
    assert_eq!(ops[0].stencil_pipeline_op(), 4);
    assert_eq!(ops[1].stencil_pipeline_op(), 3);
    assert_eq!(ops[1].stencil_ref(), 1);
}

#[test]
fn compile_intersect_uses_temp_level() {
    let a = Area::geom(unit_quad()).intersect(Area::geom(unit_quad()));
    let mut ops = Vec::new();
    a.compile_cover(0, &mut ops);
    assert!(ops.len() >= 4);
    assert_eq!(a.max_stencil_level(0), 2);
}

#[test]
fn empty_geom_becomes_empty_area() {
    let g = AreaGeom {
        vertices: Vec::new(),
        indices: Vec::new(),
        transform_table: Vec::new(),
        polygon_edges: Vec::new(),
        has_sdf: false,
        sdf_feather: None,
    };
    assert!(Area::geom(g).is_empty());
}

/// The stencil value of one pixel after some steps. `hit` says which of the
/// quads, numbered by their left edge, cover the pixel.
fn run(ops: &[AreaStencilOp], hit: &[bool], start: u32) -> u32 {
    let mut s = start;
    for op in ops {
        let touched = match op.geom() {
            Some(g) => hit[f32::from_bits(g.vertices[0].position[0]) as usize],
            None => true,
        };
        if touched && s == op.stencil_ref() {
            match op.stencil_pipeline_op() {
                4 => s += 1,
                3 => s -= 1,
                other => panic!("unexpected step {other}"),
            }
        }
    }
    s
}

fn leaf(i: usize) -> Area {
    Area::geom(quad_at(i as f32))
}

fn build(shape: usize) -> Area {
    match shape {
        0 => leaf(0).union(leaf(1).intersect(leaf(2))),
        1 => leaf(0).intersect(leaf(1)).union(leaf(2).intersect(leaf(3))),
        2 => leaf(0).difference(leaf(1).difference(leaf(2))),
        3 => leaf(0).intersect(leaf(1).union(leaf(2).difference(leaf(3)))),
        _ => Area::Full.difference(leaf(0).intersect(leaf(1).intersect(leaf(2)))),
    }
}

fn inside(shape: usize, h: &[bool]) -> bool {
    match shape {
        0 => h[0] || (h[1] && h[2]),
        1 => (h[0] && h[1]) || (h[2] && h[3]),
        2 => h[0] && !(h[1] && !h[2]),
        3 => h[0] && (h[1] || (h[2] && !h[3])),
        _ => !(h[0] && h[1] && h[2]),
    }
}

#[test]
fn cover_marks_and_erase_clears_every_pixel() {
    for shape in 0..5 {
        for mask in 0..16u32 {
            let hit: Vec<bool> = (0..4).map(|i| mask & (1 << i) != 0).collect();
            let a = build(shape);
            let mut cover = Vec::new();
            a.compile_cover(3, &mut cover);
            let marked = run(&cover, &hit, 3);
            assert_eq!(marked, if inside(shape, &hit) { 4 } else { 3 });
            assert_eq!(run(&cover, &hit, 1), 1);
            let mut erase = Vec::new();
            a.compile_erase(4, &mut erase);
            assert_eq!(run(&erase, &hit, marked), 3);
        }
    }
}

#[test]
fn cover_stays_below_the_highest_level() {
    for shape in 0..5 {
        let a = build(shape);
        let mut cover = Vec::new();
        a.compile_cover(2, &mut cover);
        let top = a.max_stencil_level(2);
        assert!(cover.iter().all(|o| o.stencil_ref() <= top));
    }
}

#[test]
fn cleanup_lowers_the_mask_level() {
    let mut ops = Vec::new();
    Area::compile_cleanup(5, &mut ops);
    assert_eq!(ops.len(), 1);
    assert!(ops[0].is_fullscreen());
    assert_eq!(ops[0].stencil_ref(), 5);
    assert_eq!(ops[0].stencil_pipeline_op(), 3);
}

#[test]
fn simplified_keeps_pixels_and_is_done() {
    let a = Area::Full.intersect(leaf(0).union(Area::Empty)).difference(Area::Empty);
    assert!(matches!(a.simplified(), Area::Geom(_)));
    let b = Area::Full.difference(Area::Full).union(leaf(1));
    assert!(matches!(b.simplified(), Area::Geom(_)));
}

#[test]
fn effective_both_is_difference() {
    let inc = leaf(0);
    let exc = leaf(1);
    assert!(matches!(effective_area(Some(&inc), Some(&exc)), Some(Area::Difference(_, _))));
    assert!(effective_area(Some(&inc), Some(&Area::Full)).unwrap().is_empty());
}
