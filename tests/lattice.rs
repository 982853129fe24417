use shader_graph::{Decimal, ShaderIO};

#[test]
fn extend_reaches_vec4_and_stays() {
    for t in [ShaderIO::F32, ShaderIO::Vec2, ShaderIO::Vec3, ShaderIO::Vec4] {
        assert_eq!(t.extend().extend().extend().extend(), ShaderIO::Vec4);
    }
    assert_eq!(ShaderIO::F32.extend(), ShaderIO::Vec2);
    assert_eq!(ShaderIO::Vec2.extend(), ShaderIO::Vec3);
    assert_eq!(ShaderIO::Vec3.extend(), ShaderIO::Vec4);
    assert_eq!(ShaderIO::Vec4.extend(), ShaderIO::Vec4);
}

#[test]
fn transform_to_same_shape_is_identity() {
    for t in [ShaderIO::F32, ShaderIO::Vec2, ShaderIO::Vec3, ShaderIO::Vec4] {
        assert_eq!(t.transform(t, "value", Some(Decimal::whole(3))), "value");
        assert_eq!(t.transform(t, "v", None), "v");
    }
}

#[test]
fn widening_scalar_to_vec2() {
    assert_eq!(
        ShaderIO::F32.transform(ShaderIO::Vec2, "x", Some(Decimal::whole(2))),
        "vec2<f32>(x, 2.00000)"
    );
}

#[test]
fn widening_pads_with_a_vector_fill() {
    assert_eq!(
        ShaderIO::F32.transform(ShaderIO::Vec4, "x", None),
        "vec4<f32>(x, vec3<f32>(0.00000))"
    );
    assert_eq!(
        ShaderIO::F32.transform(ShaderIO::Vec3, "x", Some(Decimal::from_units(50000))),
        "vec3<f32>(x, vec2<f32>(0.50000))"
    );
    assert_eq!(
        ShaderIO::Vec2.transform(ShaderIO::Vec4, "uv", Some(Decimal::whole(1))),
        "vec4<f32>(uv, vec2<f32>(1.00000))"
    );
    assert_eq!(
        ShaderIO::Vec2.transform(ShaderIO::Vec3, "uv", Some(Decimal::from_units(-25000))),
        "vec3<f32>(uv, -0.25000)"
    );
    assert_eq!(
        ShaderIO::Vec3.transform(ShaderIO::Vec4, "n", None),
        "vec4<f32>(n, 0.00000)"
    );
}

#[test]
fn narrowing_swizzles_the_first_lanes() {
    assert_eq!(ShaderIO::Vec4.transform(ShaderIO::F32, "c", None), "c.x");
    assert_eq!(ShaderIO::Vec2.transform(ShaderIO::F32, "c", None), "c.x");
    assert_eq!(ShaderIO::Vec4.transform(ShaderIO::Vec2, "c", None), "c.xy");
    assert_eq!(ShaderIO::Vec3.transform(ShaderIO::Vec2, "c", None), "c.xy");
    assert_eq!(ShaderIO::Vec4.transform(ShaderIO::Vec3, "c", None), "c.xyz");
}

#[test]
fn fill_vec3_and_scalar() {
    assert_eq!(ShaderIO::Vec3.fill(Decimal::whole(1)), "vec3<f32>(1.00000)");
    assert_eq!(ShaderIO::F32.fill(Decimal::whole(1)), "1");
    assert_eq!(ShaderIO::Vec2.fill(Decimal::zero()), "vec2<f32>(0.00000)");
    assert_eq!(ShaderIO::Vec4.fill(Decimal::from_units(12345)), "vec4<f32>(0.12345)");
    assert_eq!(ShaderIO::F32.fill(Decimal::zero()), "0");
}

#[test]
fn decimal_text_forms() {
    assert_eq!(Decimal::from_units(50000).to_fixed(), "0.50000");
    assert_eq!(Decimal::from_units(-50000).to_fixed(), "-0.50000");
    assert_eq!(Decimal::whole(12).to_fixed(), "12.00000");
    assert_eq!(Decimal::from_units(125000).to_short(), "1.25");
    assert_eq!(Decimal::from_units(-50000).to_short(), "-0.5");
    assert_eq!(Decimal::from_units(100001).to_short(), "1.00001");
    assert_eq!(Decimal::whole(-3).to_short(), "-3");
    assert_eq!(Decimal::from_units(i64::MIN).to_fixed(), "-92233720368547.75808");
}

#[test]
fn defaults() {
    assert_eq!(ShaderIO::default(), ShaderIO::F32);
    assert_eq!(shader_graph::ShaderNodes::default(), shader_graph::ShaderNodes::Print);
    let b = shader_graph::ShaderBuilder::default();
    assert!(b.content.is_empty());
    assert_eq!(b.output, ShaderIO::Vec4);
    assert_eq!(b.var, "ZERO");
}
