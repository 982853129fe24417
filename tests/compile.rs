use shader_graph::{
    compile, CompilePass, Decimal, Edge, Menu, ShaderBuilder, ShaderError, ShaderGraph, ShaderIO,
    ShaderNodes, Slot, WidgetKind, WidgetPlugins,
};

const PRELUDE: &str = "
@group(1) @binding(1)
var texture: texture_2d<f32>;
@group(1) @binding(2)
var texture_sampler: sampler;

const ZERO = vec4<f32>(0.0, 0.0, 0.0, 0.0);

@fragment
fn fragment(
    #import bevy_pbr::mesh_vertex_output
) -> @location(0) vec4<f32> {
";

fn value(lines: &[&str], output: ShaderIO, var: &str) -> ShaderBuilder {
    ShaderBuilder {
        content: lines.iter().map(|l| l.to_string()).collect(),
        output,
        var: var.to_string(),
    }
}

fn edge(from: usize, output: usize, to: usize, input: usize) -> Edge {
    Edge { from, output, to, input }
}

#[test]
fn saturate_clamps_at_the_input_shape() {
    let input = value(&[], ShaderIO::Vec3, "c");
    let r = ShaderNodes::Saturate.resolve(&vec![input], None, 0).unwrap();
    assert_eq!(r.var, "c_saturate");
    assert_eq!(r.output, ShaderIO::Vec3);
    assert_eq!(
        r.content,
        vec!["let c_saturate = clamp(c, vec3<f32>(0.00000), vec3<f32>(1.00000));".to_string()]
    );
}

#[test]
fn saturate_of_a_scalar_uses_bare_literals() {
    let input = value(&["let a = 1.0;"], ShaderIO::F32, "a");
    let r = ShaderNodes::Saturate.resolve(&vec![input], Some(0), 0).unwrap();
    assert_eq!(
        r.content,
        vec!["let a = 1.0;".to_string(), "let a_saturate = clamp(a, 0, 1);".to_string()]
    );
}

#[test]
fn source_whole_and_lane_outputs() {
    let whole = ShaderNodes::UV.resolve(&vec![], Some(0), 0).unwrap();
    assert!(whole.content.is_empty());
    assert_eq!(whole.var, "uv");
    assert_eq!(whole.output, ShaderIO::Vec2);
    let lane = ShaderNodes::UV.resolve(&vec![], Some(2), 0).unwrap();
    assert_eq!(lane.content, vec!["let uv_y = uv.y;".to_string()]);
    assert_eq!(lane.var, "uv_y");
    assert_eq!(lane.output, ShaderIO::F32);
    let normal = ShaderNodes::Normal.resolve(&vec![], Some(3), 0).unwrap();
    assert_eq!(normal.content, vec!["let world_normal_z = world_normal.z;".to_string()]);
    assert_eq!(ShaderNodes::Normal.resolve(&vec![], Some(0), 0).unwrap().output, ShaderIO::Vec3);
}

#[test]
fn texture_samples_then_extracts_a_channel() {
    let color = ShaderNodes::Texture.resolve(&vec![], Some(0), 0).unwrap();
    assert_eq!(
        color.content,
        vec!["let texture_color = textureSample(texture, texture_sampler, uv);".to_string()]
    );
    assert_eq!(color.output, ShaderIO::Vec4);
    let g = ShaderNodes::Texture.resolve(&vec![], Some(2), 0).unwrap();
    assert_eq!(g.content.len(), 2);
    assert_eq!(g.content[1], "let texture_color_g = texture_color.g;");
    assert_eq!(g.var, "texture_color_g");
    assert_eq!(g.output, ShaderIO::F32);
}

#[test]
fn component_goes_through_vec4() {
    let input = value(&[], ShaderIO::Vec2, "uv");
    let r = ShaderNodes::Component.resolve(&vec![input], Some(3), 0).unwrap();
    assert_eq!(
        r.content,
        vec!["let uv_w = vec4<f32>(uv, vec2<f32>(0.00000)).w;".to_string()]
    );
    assert_eq!(r.output, ShaderIO::F32);
}

#[test]
fn extend_widens_by_one_lane() {
    let input = value(&[], ShaderIO::Vec2, "uv");
    let r = ShaderNodes::Extend(Decimal::from_units(50000)).resolve(&vec![input], None, 0).unwrap();
    assert_eq!(r.content, vec!["let uv_extend = vec3<f32>(uv, 0.50000);".to_string()]);
    assert_eq!(r.var, "uv_extend");
    assert_eq!(r.output, ShaderIO::Vec3);
    let full = value(&[], ShaderIO::Vec4, "c");
    let same = ShaderNodes::Extend(Decimal::zero()).resolve(&vec![full], None, 0).unwrap();
    assert_eq!(same.content, vec!["let c_extend = c;".to_string()]);
}

#[test]
fn vector_composes_scalars() {
    let x = value(&["let uv_x = uv.x;"], ShaderIO::F32, "uv_x");
    let y = value(&["let uv_x = uv.x;", "let b = 2.0;"], ShaderIO::F32, "b");
    let r = ShaderNodes::Vector
        .resolve(&vec![x, y, ShaderBuilder::default(), ShaderBuilder::default()], None, 7)
        .unwrap();
    assert_eq!(
        r.content,
        vec![
            "let uv_x = uv.x;".to_string(),
            "let b = 2.0;".to_string(),
            "let vec_7 = vec4(uv_x, b, ZERO.x, ZERO.x);".to_string(),
        ]
    );
    assert_eq!(r.var, "vec_7");
    assert_eq!(r.output, ShaderIO::Vec4);
}

#[test]
fn unknown_output_socket_is_rejected() {
    assert_eq!(
        ShaderNodes::UV.resolve(&vec![], Some(3), 0).unwrap_err(),
        ShaderError::UnknownOutputSocket
    );
    assert_eq!(
        ShaderNodes::Texture.resolve(&vec![], None, 0).unwrap_err(),
        ShaderError::UnknownOutputSocket
    );
    assert_eq!(
        ShaderNodes::Print.resolve(&vec![ShaderBuilder::default()], Some(0), 0).unwrap_err(),
        ShaderError::UnknownOutputSocket
    );
}

#[test]
fn build_wraps_statements_in_the_prelude() {
    let b = value(&["let a = uv.x;"], ShaderIO::F32, "a");
    let expected = format!("{}    let a = uv.x;\n    return vec4<f32>(vec3<f32>(a, vec2<f32>(0.00000)), 1.0);\n}}\n", PRELUDE);
    assert_eq!(b.build().unwrap(), expected);
    assert_eq!(b.render_final(), "vec4<f32>(vec3<f32>(a, vec2<f32>(0.00000)), 1.0)");
}

#[test]
fn build_reads_an_unbound_result_as_zero() {
    let b = value(&[], ShaderIO::F32, "");
    assert_eq!(b.render_final(), "vec4<f32>(vec3<f32>(0.0, vec2<f32>(0.00000)), 1.0)");
    let v4 = value(&[], ShaderIO::Vec4, "");
    assert_eq!(v4.render_final(), "vec4<f32>(vec3<f32>(0.0, vec2<f32>(0.00000)), 1.0)");
    assert!(v4
        .build()
        .unwrap()
        .ends_with("    return vec4<f32>(vec3<f32>(0.0, vec2<f32>(0.00000)), 1.0);\n}\n"));
    let v2 = value(&[], ShaderIO::Vec2, "");
    assert_eq!(v2.render_final(), "vec4<f32>(vec3<f32>(0.0, vec2<f32>(0.00000)), 1.0)");
    let d = ShaderBuilder::default();
    assert_eq!(d.render_final(), "vec4<f32>(ZERO.xyz, 1.0)");
}

#[test]
fn end_to_end_uv_extend_preview_print() {
    let g = ShaderGraph {
        nodes: vec![
            ShaderNodes::UV,
            ShaderNodes::Extend(Decimal::from_units(50000)),
            ShaderNodes::MaterialPreview,
            ShaderNodes::Print,
        ],
        edges: vec![edge(0, 0, 1, 0), edge(1, 0, 2, 0), edge(2, 0, 3, 0)],
    };
    let c = compile(&g, 3, None).unwrap();
    let expected = format!(
        "{}    let uv_extend = vec3<f32>(uv, 0.50000);\n    return vec4<f32>(uv_extend, 1.0);\n}}\n",
        PRELUDE
    );
    assert_eq!(c.source, expected);
    assert_eq!(c.pass.emitted, vec![expected.clone()]);
}

#[test]
fn two_vector_nodes_get_distinct_names() {
    let g = ShaderGraph {
        nodes: vec![ShaderNodes::Vector, ShaderNodes::Vector, ShaderNodes::Vector],
        edges: vec![edge(0, 0, 2, 0), edge(1, 0, 2, 1)],
    };
    let c = compile(&g, 2, None).unwrap();
    assert_eq!(
        c.value.content,
        vec![
            "let vec_0 = vec4(ZERO.x, ZERO.x, ZERO.x, ZERO.x);".to_string(),
            "let vec_1 = vec4(ZERO.x, ZERO.x, ZERO.x, ZERO.x);".to_string(),
            "let vec_2 = vec4(vec_0.x, vec_1.x, ZERO.x, ZERO.x);".to_string(),
        ]
    );
    assert_eq!(c.pass.serial, 3);
}

#[test]
fn second_evaluation_is_memoized() {
    let g = ShaderGraph {
        nodes: vec![ShaderNodes::UV, ShaderNodes::Vector],
        edges: vec![edge(0, 1, 1, 0)],
    };
    let mut pass = CompilePass::new(&g);
    let first = pass.evaluate(&g, 1, None).unwrap();
    let serial = pass.serial;
    let second = pass.evaluate(&g, 1, Some(0)).unwrap();
    assert_eq!(first.content, second.content);
    assert_eq!(first.var, second.var);
    assert_eq!(pass.serial, serial);
    assert!(matches!(pass.memo[4], Slot::Resolved(_, 0)));
}

#[test]
fn shared_input_is_emitted_once() {
    let g = ShaderGraph {
        nodes: vec![ShaderNodes::UV, ShaderNodes::Vector],
        edges: vec![edge(0, 1, 1, 0), edge(0, 1, 1, 1)],
    };
    let c = compile(&g, 1, None).unwrap();
    assert_eq!(
        c.value.content,
        vec![
            "let uv_x = uv.x;".to_string(),
            "let vec_0 = vec4(uv_x, uv_x, ZERO.x, ZERO.x);".to_string(),
        ]
    );
}

#[test]
fn cycle_is_rejected() {
    let g = ShaderGraph {
        nodes: vec![ShaderNodes::Saturate, ShaderNodes::Extend(Decimal::zero())],
        edges: vec![edge(0, 0, 1, 0), edge(1, 0, 0, 0)],
    };
    assert_eq!(compile(&g, 0, None).unwrap_err(), ShaderError::CyclicGraph);
    let self_loop = ShaderGraph {
        nodes: vec![ShaderNodes::Component],
        edges: vec![edge(0, 2, 0, 0)],
    };
    assert_eq!(compile(&self_loop, 0, Some(1)).unwrap_err(), ShaderError::CyclicGraph);
}

#[test]
fn undeclared_socket_on_an_edge_is_rejected() {
    let g = ShaderGraph {
        nodes: vec![ShaderNodes::UV, ShaderNodes::Saturate],
        edges: vec![edge(0, 3, 1, 0)],
    };
    assert_eq!(compile(&g, 1, None).unwrap_err(), ShaderError::UnknownOutputSocket);
    assert_eq!(compile(&g, 0, None).unwrap_err(), ShaderError::UnknownOutputSocket);
}

#[test]
fn unconnected_input_reads_zero() {
    let g = ShaderGraph { nodes: vec![ShaderNodes::Saturate], edges: vec![] };
    let c = compile(&g, 0, None).unwrap();
    assert_eq!(
        c.value.content,
        vec!["let ZERO_saturate = clamp(ZERO, vec4<f32>(0.00000), vec4<f32>(1.00000));".to_string()]
    );
}

#[test]
fn menu_widgets_and_titles() {
    let options = Menu.options();
    assert_eq!(options.len(), 9);
    assert_eq!(options[3].0, "Extend");
    assert_eq!(options[3].1, ShaderNodes::Extend(Decimal::zero()));
    assert_eq!(options[8].1, ShaderNodes::MaterialPreview);
    assert_eq!(
        WidgetPlugins.build(),
        vec![WidgetKind::MaterialPreview, WidgetKind::Texture, WidgetKind::NumberInput]
    );
    assert_eq!(ShaderNodes::Texture.widget(), Some(WidgetKind::Texture));
    assert_eq!(ShaderNodes::Vector.widget(), None);
    let mut n = ShaderNodes::Extend(Decimal::zero());
    n.set_value(Decimal::whole(2));
    assert_eq!(n, ShaderNodes::Extend(Decimal::whole(2)));
    let mut s = ShaderNodes::Saturate;
    s.set_value(Decimal::whole(2));
    assert_eq!(s, ShaderNodes::Saturate);
    assert_eq!(ShaderNodes::MaterialPreview.title(), "Preview");
    assert_eq!(ShaderNodes::Vector.output_name(0), "vec");
    assert_eq!(ShaderNodes::Vector.input_name(3), "w");
}

#[test]
fn sockets_are_found_by_name() {
    assert_eq!(ShaderNodes::Texture.output_socket("g"), Some(2));
    assert_eq!(ShaderNodes::UV.output_socket("uv"), Some(0));
    assert_eq!(ShaderNodes::UV.output_socket("z"), None);
    assert_eq!(ShaderNodes::Print.output_socket("output"), None);
    assert_eq!(ShaderNodes::Vector.input_socket("z"), Some(2));
    assert_eq!(ShaderNodes::MaterialPreview.input_socket("input"), Some(0));
    assert_eq!(ShaderNodes::Normal.input_socket("value"), None);
    assert_eq!(ShaderNodes::MaterialPreview.output_name(0), "output");
}

#[test]
fn slot_sizes_follow_the_kind() {
    assert_eq!(ShaderNodes::Extend(Decimal::zero()).slot_height(), Some(20));
    assert_eq!(ShaderNodes::MaterialPreview.slot_height(), Some(400));
    assert_eq!(ShaderNodes::MaterialPreview.width(), Some(400));
    assert_eq!(ShaderNodes::Texture.width(), Some(200));
    assert_eq!(ShaderNodes::UV.slot_height(), None);
    assert_eq!(ShaderNodes::UV.width(), None);
}

#[test]
fn compile_of_a_lane_root() {
    let g = ShaderGraph {
        nodes: vec![ShaderNodes::Texture, ShaderNodes::Component],
        edges: vec![edge(0, 0, 1, 0)],
    };
    let c = compile(&g, 1, Some(1)).unwrap();
    assert_eq!(
        c.value.content,
        vec![
            "let texture_color = textureSample(texture, texture_sampler, uv);".to_string(),
            "let texture_color_y = texture_color.y;".to_string(),
        ]
    );
    assert!(c.source.ends_with("    return vec4<f32>(vec3<f32>(texture_color_y, vec2<f32>(0.00000)), 1.0);\n}\n"));
    assert!(c.pass.emitted.is_empty());
}

#[test]
fn preview_emits_nothing_and_print_emits_once() {
    let g = ShaderGraph {
        nodes: vec![ShaderNodes::UV, ShaderNodes::MaterialPreview, ShaderNodes::Print],
        edges: vec![edge(0, 0, 1, 0), edge(1, 0, 2, 0)],
    };
    let preview = compile(&g, 1, None).unwrap();
    assert!(preview.pass.emitted.is_empty());
    let print = compile(&g, 2, None).unwrap();
    assert_eq!(print.pass.emitted.len(), 1);
    assert_eq!(print.pass.emitted[0], print.source);
}

#[test]
fn bad_edge_outside_the_root_cone_is_ignored() {
    let g = ShaderGraph {
        nodes: vec![ShaderNodes::UV, ShaderNodes::Saturate, ShaderNodes::Saturate],
        edges: vec![edge(0, 0, 1, 0), edge(0, 3, 2, 0)],
    };
    let c = compile(&g, 1, None).unwrap();
    assert_eq!(c.value.var, "uv_saturate");
    assert_eq!(compile(&g, 2, None).unwrap_err(), ShaderError::UnknownOutputSocket);
}
