use std::collections::HashSet;

use node_forge_render::pass_debug::{PassDebugDependencyNode, PassDebugSource};

fn target_id_by_name(doc: &PassDebugSource, name: &str) -> String {
    doc.dependency_targets
        .iter()
        .find(|target| target.name == name)
        .unwrap_or_else(|| panic!("missing dependency target named {name}"))
        .id
        .clone()
}

fn tree<'a>(doc: &'a PassDebugSource, id: &str) -> &'a PassDebugDependencyNode {
    doc.dependency_tree(id)
        .unwrap_or_else(|| panic!("missing dependency tree for {id}"))
}

fn flatten_dependency_labels(node: &PassDebugDependencyNode, out: &mut Vec<String>) {
    out.push(node.label.clone());
    for child in &node.children {
        flatten_dependency_labels(child, out);
    }
}

fn dependency_labels_for(doc: &PassDebugSource, name: &str) -> Vec<String> {
    let id = target_id_by_name(doc, name);
    let mut labels = Vec::new();
    flatten_dependency_labels(tree(doc, &id), &mut labels);
    labels
}

fn assert_labels_contain(labels: &[String], needle: &str) {
    assert!(
        labels.iter().any(|label| label.contains(needle)),
        "expected dependency labels to contain `{needle}`\nlabels:\n{}",
        labels.join("\n")
    );
}

fn assert_labels_do_not_contain(labels: &[String], needle: &str) {
    assert!(
        labels.iter().all(|label| !label.contains(needle)),
        "expected dependency labels not to contain `{needle}`\nlabels:\n{}",
        labels.join("\n")
    );
}

fn target_name_for_id<'a>(doc: &'a PassDebugSource, target_id: &str) -> &'a str {
    doc.dependency_targets
        .iter()
        .find(|target| target.id == target_id)
        .map(|target| target.name.as_str())
        .unwrap_or_else(|| panic!("missing dependency target id {target_id}"))
}

fn child_target<'a>(
    doc: &PassDebugSource,
    node: &'a PassDebugDependencyNode,
    name: &str,
    edge_label: Option<&str>,
) -> &'a PassDebugDependencyNode {
    node.children
        .iter()
        .find(|child| {
            child
                .target_id
                .as_deref()
                .map(|target_id| target_name_for_id(doc, target_id) == name)
                .unwrap_or(false)
                && child.edge_label.as_deref() == edge_label
        })
        .unwrap_or_else(|| {
            let children = node
                .children
                .iter()
                .map(|child| {
                    let target = child
                        .target_id
                        .as_deref()
                        .map(|target_id| target_name_for_id(doc, target_id))
                        .unwrap_or("<non-target>");
                    format!("{target} edge={:?} label={}", child.edge_label, child.label)
                })
                .collect::<Vec<_>>()
                .join("\n");
            panic!("missing child target {name} edge={edge_label:?}\nchildren:\n{children}")
        })
}

fn collect_target_nodes_by_name<'a>(
    doc: &PassDebugSource,
    node: &'a PassDebugDependencyNode,
    name: &str,
    out: &mut Vec<&'a PassDebugDependencyNode>,
) {
    if node
        .target_id
        .as_deref()
        .map(|target_id| target_name_for_id(doc, target_id) == name)
        .unwrap_or(false)
    {
        out.push(node);
    }
    for child in &node.children {
        collect_target_nodes_by_name(doc, child, name, out);
    }
}

fn collect_target_nodes_on_line<'a>(
    node: &'a PassDebugDependencyNode,
    target_id: &str,
    line: u32,
    out: &mut Vec<&'a PassDebugDependencyNode>,
) {
    if node.target_id.as_deref() == Some(target_id)
        && node
            .source_range
            .is_some_and(|source_range| source_range.line == line)
    {
        out.push(node);
    }
    for child in &node.children {
        collect_target_nodes_on_line(child, target_id, line, out);
    }
}

fn visit_node(
    doc: &PassDebugSource,
    node: &PassDebugDependencyNode,
    wanted_target_id: &str,
    seen_targets: &mut HashSet<String>,
) -> bool {
    if let Some(target_id) = node.target_id.as_deref() {
        if target_id == wanted_target_id {
            return true;
        }
        if seen_targets.insert(target_id.to_string()) {
            if let Some(tree) = doc.dependency_tree(target_id) {
                if visit_node(doc, tree, wanted_target_id, seen_targets) {
                    return true;
                }
            }
        }
    }
    node.children
        .iter()
        .any(|child| visit_node(doc, child, wanted_target_id, seen_targets))
}

fn dependency_graph_reaches_target(doc: &PassDebugSource, start_target_id: &str, wanted_target_id: &str) -> bool {
    doc.dependency_tree(start_target_id)
        .map(|tree| visit_node(doc, tree, wanted_target_id, &mut HashSet::new()))
        .unwrap_or(false)
}

fn assert_node_range_selects(
    doc: &PassDebugSource,
    node: &PassDebugDependencyNode,
    expected_start_byte: usize,
    expected_text: &str,
) {
    let range = node
        .source_range
        .unwrap_or_else(|| panic!("missing node source range for {}", node.label));
    assert_eq!(range.start_byte, expected_start_byte);
    assert_eq!(&doc.module_source[range.start_byte..range.end_byte], expected_text);
}

fn check_dependency_targets_include_named_lets_locals_args_and_globals() {
    let source = r#"
@group(0) @binding(0) var<uniform> threshold: f32;

@fragment
fn fs_main(@location(0) uv: vec2f) -> @location(0) vec4f {
    var x: f32 = 0.0;
    let y = uv.x + threshold;
    x = y;
    return vec4f(x, x, x, 1.0);
}
"#;

    let doc = PassDebugSource::from_wgsl("deps.pass", source);

    assert!(doc.parse_error.is_none());
    assert!(doc.dependency_targets.iter().any(|target| target.name == "threshold"));
    assert!(doc.dependency_targets.iter().any(|target| target.name == "uv"));
    assert!(doc.dependency_targets.iter().any(|target| target.name == "x"));
    assert!(doc.dependency_targets.iter().any(|target| target.name == "y"));

    let x_labels = dependency_labels_for(&doc, "x");
    assert_labels_contain(&x_labels, "fs_main let y");
    assert_labels_do_not_contain(&x_labels, "[cycle]");

    let y_labels = dependency_labels_for(&doc, "y");
    assert_labels_contain(&y_labels, "argument uv");
    assert_labels_contain(&y_labels, "global threshold");
}

fn check_control_flow_conditions_contribute_to_stores() {
    let source = r#"
fn choose(i: i32) -> f32 {
    var x: f32 = 0.0;
    if i > 0 {
        x = 1.0;
    }
    switch i {
        case 2: {
            x = 2.0;
        }
        default: {}
    }
    return x;
}
"#;

    let doc = PassDebugSource::from_wgsl("control.pass", source);
    assert!(doc.parse_error.is_none());

    let labels = dependency_labels_for(&doc, "x");
    assert_labels_contain(&labels, "[condition] if");
    assert_labels_contain(&labels, "[condition] switch selector");
    assert_labels_contain(&labels, "[condition] case");
}

fn check_function_call_dependencies_are_variable_map_edges() {
    let source = r#"
fn foo(b: f32, c: f32) -> f32 {
    return b + c;
}

fn math_multiply(a: f32, e: f32) -> f32 {
    return a * e;
}

fn debug_main() -> f32 {
    let b = 1.0;
    let c = 2.0;
    let e = 3.0;
    let a = foo(b, c);
    let d = math_multiply(a, e);
    return d;
}
"#;

    let doc = PassDebugSource::from_wgsl("call.pass", source);
    assert!(doc.parse_error.is_none());

    let d_id = target_id_by_name(&doc, "d");
    let d = tree(&doc, &d_id);
    assert_eq!(d.edge_label.as_deref(), None);

    let a = child_target(&doc, d, "a", Some("math_multiply"));
    child_target(&doc, d, "e", Some("math_multiply"));
    assert!(a.reference);
    let a_tree = tree(&doc, a.target_id.as_ref().expect("missing a target id"));
    child_target(&doc, a_tree, "b", Some("foo"));
    child_target(&doc, a_tree, "c", Some("foo"));
}

fn check_named_expression_dependency_nodes_point_to_reference_occurrences() {
    let source = r#"
fn foo(b: f32, c: f32) -> f32 {
    return b + c;
}

fn bar(a: f32, c: f32) -> f32 {
    return a + c;
}

fn debug_main() -> f32 {
    let b = 1.0;
    let c = 2.0;
    let a = foo(b, c);
    let d = bar(a, c);
    return d;
}
"#;

    let doc = PassDebugSource::from_wgsl("reference-occurrence.pass", source);
    assert!(doc.parse_error.is_none());

    let d_id = target_id_by_name(&doc, "d");
    let d = tree(&doc, &d_id);
    let a = child_target(&doc, d, "a", Some("bar"));
    assert!(a.reference);
    let a_tree = tree(&doc, a.target_id.as_ref().expect("missing a target id"));
    let b = child_target(&doc, a_tree, "b", Some("foo"));

    let d_arg_start = doc.module_source.find("bar(a, c)").unwrap() + "bar(".len();
    assert_node_range_selects(&doc, a, d_arg_start, "a");

    let a_arg_start = doc.module_source.find("foo(b, c)").unwrap() + "foo(".len();
    assert_node_range_selects(&doc, b, a_arg_start, "b");
}

fn check_duplicate_named_expression_operands_keep_distinct_occurrence_ranges() {
    let source = r#"
fn bar(left: f32, right: f32) -> f32 {
    return left + right;
}

fn debug_main() -> f32 {
    let a = 1.0;
    let d = bar(a, a);
    return d;
}
"#;

    let doc = PassDebugSource::from_wgsl("duplicate-reference.pass", source);
    assert!(doc.parse_error.is_none());

    let d_id = target_id_by_name(&doc, "d");
    let d = tree(&doc, &d_id);
    let a_children = d
        .children
        .iter()
        .filter(|child| {
            child.edge_label.as_deref() == Some("bar")
                && child
                    .target_id
                    .as_deref()
                    .map(|target_id| target_name_for_id(&doc, target_id) == "a")
                    .unwrap_or(false)
        })
        .collect::<Vec<_>>();
    assert_eq!(a_children.len(), 2);

    let call_start = doc.module_source.find("bar(a, a)").unwrap();
    assert_node_range_selects(&doc, a_children[0], call_start + "bar(".len(), "a");
    assert_node_range_selects(&doc, a_children[1], call_start + "bar(a, ".len(), "a");
}

fn check_reassigned_reference_nodes_keep_occurrence_and_reaching_definition_ranges() {
    let source = r#"
fn fun(v: f32) -> f32 {
    return v;
}

fn foo(v: f32) -> f32 {
    return v;
}

fn bar(v: f32) -> f32 {
    return v;
}

@fragment
fn fs_main() -> @location(0) f32 {
    var a: f32 = 1.0;
    a = fun(a);
    let b = foo(a);
    let c = bar(a);
    return b + c;
}
"#;

    let doc = PassDebugSource::from_wgsl("reassigned-reference.pass", source);
    assert!(doc.parse_error.is_none());

    let b_id = target_id_by_name(&doc, "b");
    let b = tree(&doc, &b_id);
    let a_from_b = child_target(&doc, b, "a", Some("foo"));
    let foo_arg_start = doc.module_source.find("foo(a)").unwrap() + "foo(".len();
    let store_start = doc.module_source.find("a = fun(a);").unwrap();
    assert_node_range_selects(&doc, a_from_b, foo_arg_start, "a");
    let definition_range = a_from_b
        .definition_source_range
        .expect("expected foo(a) to expose reaching definition");
    assert_eq!(definition_range.start_byte, store_start);
    assert_eq!(&doc.module_source[definition_range.start_byte..definition_range.end_byte], "a");

    let a_id = target_id_by_name(&doc, "a");
    let a_tree = tree(&doc, &a_id);
    let fun_arg_start = doc.module_source.find("a = fun(a);").unwrap() + "a = fun(".len();
    let declaration_start = doc.module_source.find("var a").unwrap() + "var ".len();
    let mut a_nodes = Vec::new();
    collect_target_nodes_by_name(&doc, a_tree, "a", &mut a_nodes);
    let nested_a = a_nodes
        .into_iter()
        .find(|node| node.source_range.is_some_and(|range| range.start_byte == fun_arg_start))
        .expect("missing nested fun(a) target node");
    assert_node_range_selects(&doc, nested_a, fun_arg_start, "a");
    let nested_definition_range = nested_a
        .definition_source_range
        .expect("expected fun(a) to expose previous definition");
    assert_eq!(nested_definition_range.start_byte, declaration_start);
    assert_eq!(
        &doc.module_source[nested_definition_range.start_byte..nested_definition_range.end_byte],
        "a"
    );
}

fn check_local_reference_node_points_to_occurrence_and_keeps_definition_children() {
    let source = r#"
@fragment
fn fs_main() -> @location(0) f32 {
    let edge = 30.0;
    let edge_sdf = edge + 1.0;
    let aa_depth = edge * 2.0;
    var final_alpha = smoothstep(0.0, aa_depth, -edge_sdf);
    let out = 0.5 * final_alpha;
    return out;
}
"#;

    let doc = PassDebugSource::from_wgsl("final-alpha.pass", source);
    assert!(doc.parse_error.is_none());

    let out_id = target_id_by_name(&doc, "out");
    let out = tree(&doc, &out_id);
    let final_alpha = child_target(&doc, out, "final_alpha", Some("Multiply"));

    let occurrence_start = doc.module_source.find("0.5 * final_alpha").unwrap() + "0.5 * ".len();
    assert_node_range_selects(&doc, final_alpha, occurrence_start, "final_alpha");
    assert!(final_alpha.reference);

    let mut labels = Vec::new();
    let final_alpha_tree = tree(
        &doc,
        final_alpha.target_id.as_ref().expect("missing final_alpha target id"),
    );
    flatten_dependency_labels(final_alpha_tree, &mut labels);
    assert_labels_contain(&labels, "aa_depth");
    assert_labels_contain(&labels, "edge_sdf");
}

fn check_compound_vector_self_assignment_keeps_rhs_contributors() {
    let source = r#"
@fragment
fn fs_main() -> @location(0) vec4f {
    var x = vec4f(0.0);
    let lighting1 = 0.25;
    let lighting2 = 0.5;
    x = vec4f(x.rgb, x.a);
    x += lighting1 + lighting2;
    x = vec4f(x.rgb * x.a, x.a);
    return x;
}
"#;

    let doc = PassDebugSource::from_wgsl("compound.pass", source);
    assert!(doc.parse_error.is_none());

    let x_id = target_id_by_name(&doc, "x");
    let x = tree(&doc, &x_id);
    let mut labels = Vec::new();
    flatten_dependency_labels(x, &mut labels);
    assert_labels_contain(&labels, "lighting1");
    assert_labels_contain(&labels, "lighting2");

    let mut x_nodes = Vec::new();
    collect_target_nodes_by_name(&doc, x, "x", &mut x_nodes);
    let alpha_occurrences = x_nodes
        .iter()
        .filter_map(|node| node.source_range)
        .filter(|range| &doc.module_source[range.start_byte..range.end_byte] == "x.a")
        .collect::<Vec<_>>();
    assert!(alpha_occurrences.len() >= 2, "expected distinct x.a occurrences in dependency tree");
    assert_ne!(alpha_occurrences[0], alpha_occurrences[1]);
}

fn check_projected_self_assignment_through_call_reaches_previous_definition() {
    let source = r#"
fn adjust(v: vec4f) -> vec4f {
    return v;
}

@fragment
fn fs_main() -> @location(0) vec4f {
    let base = vec4f(0.25);
    var x = base;
    x = adjust(x);
    x = vec4f(x.rgb, x.a);
    return x;
}
"#;

    let doc = PassDebugSource::from_wgsl("projected-self-call.pass", source);
    assert!(doc.parse_error.is_none());

    let x_labels = dependency_labels_for(&doc, "x");
    assert_labels_contain(&x_labels, "base");
    assert_labels_do_not_contain(&x_labels, "[source] no contributors");

    let x_id = target_id_by_name(&doc, "x");
    let x = tree(&doc, &x_id);
    let mut x_occurrences = Vec::new();
    collect_target_nodes_on_line(x, &x_id, 11, &mut x_occurrences);
    assert!(
        x_occurrences.iter().any(|node| node
            .definition_source_range
            .is_some_and(|source_range| source_range.line == 10)),
        "line 11 x references should expose the previous definition on line 10"
    );
}

fn check_function_call_argument_edges_keep_argument_dependency_trees_per_call_site() {
    let source = r#"
fn foo(b: f32, c: f32) -> f32 {
    return b + c;
}

fn bar(b: f32, c: f32) -> f32 {
    return b - c;
}

fn debug_main() -> f32 {
    let source_b = 1.0;
    let source_c = 2.0;
    let b = source_b + 10.0;
    let c = source_c + 20.0;
    let a = foo(b, c);
    let d = bar(b, c);
    return a + d;
}
"#;

    let doc = PassDebugSource::from_wgsl("call-args.pass", source);
    assert!(doc.parse_error.is_none());

    let a_id = target_id_by_name(&doc, "a");
    let a = tree(&doc, &a_id);
    let a_b = child_target(&doc, a, "b", Some("foo"));
    let a_c = child_target(&doc, a, "c", Some("foo"));
    assert!(a_b.reference);
    assert!(a_c.reference);

    let d_id = target_id_by_name(&doc, "d");
    let d = tree(&doc, &d_id);
    let d_b = child_target(&doc, d, "b", Some("bar"));
    let d_c = child_target(&doc, d, "c", Some("bar"));
    assert!(d_b.reference);
    assert!(d_c.reference);

    let b = tree(&doc, a_b.target_id.as_ref().expect("missing b reference target id"));
    child_target(&doc, b, "source_b", Some("Add"));

    let c = tree(&doc, a_c.target_id.as_ref().expect("missing c reference target id"));
    child_target(&doc, c, "source_c", Some("Add"));
}

fn check_struct_argument_access_dependencies_keep_full_path_label() {
    let source = r#"
struct Bar {
    x: f32,
}

struct Foo {
    bar: Bar,
}

struct Input {
    foo: Foo,
}

fn use_value(v: f32) -> f32 {
    return v;
}

fn debug_main(in: Input) -> f32 {
    let a = use_value(in.foo.bar.x);
    return a;
}
"#;

    let doc = PassDebugSource::from_wgsl("path.pass", source);
    assert!(doc.parse_error.is_none(), "parse error: {:?}", doc.parse_error);

    let a_id = target_id_by_name(&doc, "a");
    let a = tree(&doc, &a_id);
    let input = child_target(&doc, a, "in", Some("use_value"));

    assert_eq!(input.display_label.as_deref(), Some("in.foo.bar.x"));
    let input_range = input.source_range.expect("expected source range for full access path");
    assert_eq!(&doc.module_source[input_range.start_byte..input_range.end_byte], "in.foo.bar.x");
}

fn check_sdf_bevel_depth_dependency_labels_show_local_px_access_path() {
    let source = r#"
struct GraphInputs {
    float_input_10: vec4f,
    float_input_12: vec4f,
}

@group(0) @binding(0)
var<uniform> graph_inputs: GraphInputs;

struct VSOut {
    @location(2) local_px: vec3f,
    @location(3) geo_size_px: vec2f,
}

fn sdf2d_round_rect(p: vec2f, b: vec2f, rad4: vec4f) -> f32 {
    return p.x + b.x + rad4.x;
}

@fragment
fn fs_main(in: VSOut) -> @location(0) f32 {
    let _2d_sdf_bevel_depth_sdf_depth = sdf2d_round_rect(
        (in.local_px.xy - (in.geo_size_px * vec2f((graph_inputs.float_input_10).x))),
        (in.geo_size_px * 0.5),
        vec4f((graph_inputs.float_input_12).x),
    );
    return _2d_sdf_bevel_depth_sdf_depth;
}
"#;

    let doc = PassDebugSource::from_wgsl("sdf.pass", source);
    assert!(doc.parse_error.is_none(), "parse error: {:?}", doc.parse_error);

    let labels = dependency_labels_for(&doc, "_2d_sdf_bevel_depth_sdf_depth");
    assert_labels_contain(&labels, "in.local_px.xy");
    assert_labels_contain(&labels, "in.geo_size_px");
    assert_labels_contain(&labels, "graph_inputs.float_input_10.x");
    assert_labels_contain(&labels, "graph_inputs.float_input_12.x");
}

fn check_texture_sample_dependencies_include_image_sampler_and_coordinate() {
    let source = r#"
@group(0) @binding(0) var tex: texture_2d<f32>;
@group(0) @binding(1) var samp: sampler;

@fragment
fn fs_main(@location(0) uv: vec2f) -> @location(0) vec4f {
    let color = textureSample(tex, samp, uv);
    return color;
}
"#;

    let doc = PassDebugSource::from_wgsl("sample.pass", source);
    assert!(doc.parse_error.is_none());

    let color_id = target_id_by_name(&doc, "color");
    let color = tree(&doc, &color_id);
    child_target(&doc, color, "tex", Some("textureSample"));
    child_target(&doc, color, "samp", Some("textureSample"));
    child_target(&doc, color, "uv", Some("textureSample"));
}

fn check_repeated_self_references_follow_previous_definitions() {
    let source = r#"
fn foo(v: f32) -> f32 {
    return v;
}

@fragment
fn fs_main() -> @location(0) f32 {
    var x: f32 = 0.0;
    x = foo(x);
    x = foo(x);
    return x;
}
"#;

    let doc = PassDebugSource::from_wgsl("reassign.pass", source);
    assert!(doc.parse_error.is_none());

    let labels = dependency_labels_for(&doc, "x");
    assert_labels_do_not_contain(&labels, "[cycle]");

    let x_id = target_id_by_name(&doc, "x");
    let x_tree = tree(&doc, &x_id);
    let latest_x = child_target(&doc, x_tree, "x", None);
    let previous_x = child_target(&doc, latest_x, "x", Some("foo"));
    let initial_x = child_target(&doc, previous_x, "x", Some("foo"));

    let latest_start = doc.module_source.rfind("x = foo(x);").unwrap();
    assert_node_range_selects(&doc, latest_x, latest_start, "x");

    let previous_start = doc.module_source.find("x = foo(x);").unwrap();
    let latest_reference_start = latest_start + "x = foo(".len();
    assert_node_range_selects(&doc, previous_x, latest_reference_start, "x");

    let previous_reference_start = previous_start + "x = foo(".len();
    assert_node_range_selects(&doc, initial_x, previous_reference_start, "x");
}

#[test]
fn dependency_targets_include_named_lets_locals_args_and_globals() {
    check_dependency_targets_include_named_lets_locals_args_and_globals();
}

#[test]
fn mod_dependency_targets_include_named_lets_locals_args_and_globals() {
    check_dependency_targets_include_named_lets_locals_args_and_globals();
}

#[test]
fn control_flow_conditions_contribute_to_stores() {
    check_control_flow_conditions_contribute_to_stores();
}

#[test]
fn mod_control_flow_conditions_contribute_to_stores() {
    check_control_flow_conditions_contribute_to_stores();
}

#[test]
fn function_call_dependencies_are_variable_map_edges() {
    check_function_call_dependencies_are_variable_map_edges();
}

#[test]
fn mod_function_call_dependencies_are_variable_map_edges() {
    check_function_call_dependencies_are_variable_map_edges();
}

#[test]
fn named_expression_dependency_nodes_point_to_reference_occurrences() {
    check_named_expression_dependency_nodes_point_to_reference_occurrences();
}

#[test]
fn mod_named_expression_dependency_nodes_point_to_reference_occurrences() {
    check_named_expression_dependency_nodes_point_to_reference_occurrences();
}

#[test]
fn duplicate_named_expression_operands_keep_distinct_occurrence_ranges() {
    check_duplicate_named_expression_operands_keep_distinct_occurrence_ranges();
}

#[test]
fn mod_duplicate_named_expression_operands_keep_distinct_occurrence_ranges() {
    check_duplicate_named_expression_operands_keep_distinct_occurrence_ranges();
}

#[test]
fn reassigned_reference_nodes_keep_occurrence_and_reaching_definition_ranges() {
    check_reassigned_reference_nodes_keep_occurrence_and_reaching_definition_ranges();
}

#[test]
fn mod_reassigned_reference_nodes_keep_occurrence_and_reaching_definition_ranges() {
    check_reassigned_reference_nodes_keep_occurrence_and_reaching_definition_ranges();
}

#[test]
fn local_reference_node_points_to_occurrence_and_keeps_definition_children() {
    check_local_reference_node_points_to_occurrence_and_keeps_definition_children();
}

#[test]
fn mod_local_reference_node_points_to_occurrence_and_keeps_definition_children() {
    check_local_reference_node_points_to_occurrence_and_keeps_definition_children();
}

#[test]
fn compound_vector_self_assignment_keeps_rhs_contributors() {
    check_compound_vector_self_assignment_keeps_rhs_contributors();
}

#[test]
fn mod_compound_vector_self_assignment_keeps_rhs_contributors() {
    check_compound_vector_self_assignment_keeps_rhs_contributors();
}

#[test]
fn projected_self_assignment_through_call_reaches_previous_definition() {
    check_projected_self_assignment_through_call_reaches_previous_definition();
}

#[test]
fn mod_projected_self_assignment_through_call_reaches_previous_definition() {
    check_projected_self_assignment_through_call_reaches_previous_definition();
}

#[test]
fn function_call_argument_edges_keep_argument_dependency_trees_per_call_site() {
    check_function_call_argument_edges_keep_argument_dependency_trees_per_call_site();
}

#[test]
fn mod_function_call_argument_edges_keep_argument_dependency_trees_per_call_site() {
    check_function_call_argument_edges_keep_argument_dependency_trees_per_call_site();
}

#[test]
fn struct_argument_access_dependencies_keep_full_path_label() {
    check_struct_argument_access_dependencies_keep_full_path_label();
}

#[test]
fn mod_struct_argument_access_dependencies_keep_full_path_label() {
    check_struct_argument_access_dependencies_keep_full_path_label();
}

#[test]
fn sdf_bevel_depth_dependency_labels_show_local_px_access_path() {
    check_sdf_bevel_depth_dependency_labels_show_local_px_access_path();
}

#[test]
fn mod_sdf_bevel_depth_dependency_labels_show_local_px_access_path() {
    check_sdf_bevel_depth_dependency_labels_show_local_px_access_path();
}

#[test]
fn texture_sample_dependencies_include_image_sampler_and_coordinate() {
    check_texture_sample_dependencies_include_image_sampler_and_coordinate();
}

#[test]
fn mod_texture_sample_dependencies_include_image_sampler_and_coordinate() {
    check_texture_sample_dependencies_include_image_sampler_and_coordinate();
}

#[test]
fn repeated_self_references_follow_previous_definitions() {
    check_repeated_self_references_follow_previous_definitions();
}

#[test]
fn mod_repeated_self_references_follow_previous_definitions() {
    check_repeated_self_references_follow_previous_definitions();
}

#[test]
fn dependency_graph_of_a_call_reaches_its_arguments_through_references() {
    let source = r#"
fn foo(b: f32, c: f32) -> f32 {
    return b + c;
}

fn debug_main() -> f32 {
    let b = 1.0;
    let c = 2.0;
    let a = foo(b, c);
    let d = a * 2.0;
    return d;
}
"#;
    let doc = PassDebugSource::from_wgsl("reach.pass", source);
    let d_id = target_id_by_name(&doc, "d");
    let b_id = target_id_by_name(&doc, "b");
    assert!(dependency_graph_reaches_target(&doc, &d_id, &b_id));
    assert_eq!(doc.dependency_trees.len(), doc.dependency_targets.len());
    for (k, target) in doc.dependency_targets.iter().enumerate() {
        assert_eq!(doc.dependency_trees[k].0, target.id);
        assert_eq!(doc.dependency_trees[k].1.target_id.as_deref(), Some(target.id.as_str()));
        assert!(!doc.dependency_trees[k].1.reference);
        assert_eq!(doc.dependency_trees[k].1.label, format!("{} ({})", target.label, target.kind));
        assert!(doc.dependency_trees[k].1.source_range.is_none());
        assert!(doc.dependency_trees[k].1.edge_label.is_none());
        assert!(!doc.dependency_trees[k].1.children.is_empty());
    }
}

#[test]
fn parse_errors_have_no_dependency_trees() {
    let doc = PassDebugSource::from_wgsl("bad.pass", "fn nope() -> { return vec4f(1.0); }");
    assert!(doc.dependency_trees.is_empty());
    assert!(doc.dependency_tree("anything").is_none());
}

fn check_other_targets_are_references(
    doc: &PassDebugSource,
    root: &str,
    node: &PassDebugDependencyNode,
    is_root: bool,
) {
    if node.reference {
        assert!(node.children.is_empty());
    }
    if let Some(id) = node.target_id.as_deref() {
        let known = doc.dependency_targets.iter().any(|target| target.id == id);
        if !is_root && id != root && known {
            assert!(node.reference, "{} should be a reference in the tree of {root}", node.label);
            assert!(node.children.is_empty());
        }
    }
    for child in &node.children {
        check_other_targets_are_references(doc, root, child, false);
    }
}

#[test]
fn other_targets_in_a_tree_are_childless_references() {
    let source = r#"
@group(0) @binding(0) var<uniform> threshold: f32;

fn foo(b: f32, c: f32) -> f32 {
    return b + c;
}

@fragment
fn fs_main(@location(0) uv: vec2f) -> @location(0) vec4f {
    var x: f32 = 0.0;
    let y = uv.x + threshold;
    if y > 0.5 {
        x = foo(y, threshold);
    }
    x = x + y;
    return vec4f(x, y, x, 1.0);
}
"#;
    let doc = PassDebugSource::from_wgsl("references.pass", source);
    assert!(doc.parse_error.is_none());
    assert!(!doc.dependency_trees.is_empty());
    for (id, tree) in &doc.dependency_trees {
        check_other_targets_are_references(&doc, id, tree, true);
    }
    let x_id = target_id_by_name(&doc, "x");
    let x = tree(&doc, &x_id);
    let mut labels = Vec::new();
    flatten_dependency_labels(x, &mut labels);
    assert_labels_contain(&labels, "[condition] if");
}
