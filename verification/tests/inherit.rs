use vireo::inherit::InheritFromParent;

#[test]
fn inherit_default_is_clipped() {
    assert!(InheritFromParent::none().clipped);
    assert!(InheritFromParent::default().clipped);
    assert!(!InheritFromParent::none().unclipped().clipped);
    assert!(InheritFromParent::transform_only().unclipped().transform);
    assert!(!InheritFromParent::transform_only().unclipped().clipped);
}

#[test]
fn inherit_builder_on_off_pairs() {
    let a = InheritFromParent::all()
        .no_transform()
        .no_color()
        .no_sdf_feather()
        .no_uv()
        .unclipped();
    assert!(!a.transform && !a.color && !a.sdf_feather && !a.uv && !a.clipped);
    let b = InheritFromParent::none()
        .transform()
        .color()
        .sdf_feather()
        .uv()
        .clipped();
    assert!(b.transform && b.color && b.sdf_feather && b.uv && b.clipped);
}

#[test]
fn inherit_any_ignores_clipping() {
    assert!(!InheritFromParent::none().any());
    assert!(InheritFromParent::none().color().any());
    assert!(!InheritFromParent::none().unclipped().any());
    assert!(InheritFromParent::all().any());
}
