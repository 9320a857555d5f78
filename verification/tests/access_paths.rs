use node_forge_render::pass_debug::access::{
    access_path_target, expression_component_count, reference_label_for_expr, type_handle_for_expr, ExprRef,
};
use node_forge_render::pass_debug::dependency::dependency_index;
use node_forge_render::pass_debug::flow::index_definitions;
use node_forge_render::pass_debug::ir::ShaderModule;
use node_forge_render::pass_debug::lowering::parse_wgsl_module;
use node_forge_render::pass_debug::PassDebugDependencyTarget;

const SHADER: &str = r#"
struct Light {
    position: vec3f,
    intensity: f32,
}

@group(0) @binding(0) var<uniform> light: Light;
@group(0) @binding(1) var<storage, read> weights: array<vec4f>;

@fragment
fn fs_main(@location(0) uv: vec2f) -> @location(0) vec4f {
    var color: vec3f = vec3f(0.0);
    let strength = light.intensity;
    let tint = color.zy;
    let w = weights[1].x;
    color.y = uv.x;
    return vec4f(color * strength, w + tint.x);
}
"#;

fn setup() -> (ShaderModule, Vec<PassDebugDependencyTarget>) {
    let module = parse_wgsl_module(SHADER).expect("shader parses");
    let (targets, _) = dependency_index(&module, SHADER);
    (module, targets)
}

fn named(module: &ShaderModule, name: &str) -> usize {
    module.entry_points[0]
        .function
        .named_expressions
        .iter()
        .find(|n| n.name == name)
        .map(|n| n.handle)
        .expect("named expression exists")
}

fn in_main(handle: usize) -> ExprRef {
    ExprRef { scope: Some("fs_main".to_string()), handle }
}

fn by_text(module: &ShaderModule, text: &str) -> usize {
    module.entry_points[0]
        .function
        .expressions
        .iter()
        .position(|e| e.span.map(|s| &SHADER[s.start..s.end] == text).unwrap_or(false))
        .expect("expression with that text exists")
}

#[test]
fn a_named_let_is_its_own_access_path() {
    let (module, targets) = setup();
    let handle = named(&module, "strength");
    let path = access_path_target(&module, SHADER, &targets, &in_main(handle), &Vec::new()).expect("path");
    assert_eq!(path.display_label, "strength");
    assert_eq!(path.target_id, format!("fs_main::expr::{handle}"));
    assert!(path.projection.is_none());
}

#[test]
fn member_accesses_are_labelled_by_member_name() {
    let (module, targets) = setup();
    let handle = named(&module, "strength");
    let stack = vec![format!("fs_main::expr::{handle}")];
    let path = access_path_target(&module, SHADER, &targets, &in_main(handle), &stack).expect("path");
    assert_eq!(path.target_id, "global::0");
    assert_eq!(path.display_label, "light.intensity");
    assert!(path.projection.is_none());
    assert!(path.source_range.is_some());
}

#[test]
fn swizzles_project_the_selected_components() {
    let (module, targets) = setup();
    let handle = named(&module, "tint");
    let stack = vec![format!("fs_main::expr::{handle}")];
    let path = access_path_target(&module, SHADER, &targets, &in_main(handle), &stack).expect("path");
    assert_eq!(path.target_id, "fs_main::local::0");
    assert_eq!(path.display_label, "color.zy");
    assert_eq!(path.projection, Some(vec![2, 1]));
}

#[test]
fn constant_indices_into_arrays_use_component_letters() {
    let (module, targets) = setup();
    let handle = named(&module, "w");
    let stack = vec![format!("fs_main::expr::{handle}")];
    let path = access_path_target(&module, SHADER, &targets, &in_main(handle), &stack).expect("path");
    assert_eq!(path.target_id, "global::1");
    assert_eq!(path.display_label, "weights.y.x");
    assert_eq!(path.projection, Some(vec![0]));
}

#[test]
fn arguments_are_paths_of_their_own() {
    let (module, targets) = setup();
    let function = &module.entry_points[0].function;
    let handle = function
        .expressions
        .iter()
        .position(|e| format!("{:?}", e.kind).contains("FunctionArgument(0)"))
        .expect("argument expression");
    let path = access_path_target(&module, SHADER, &targets, &in_main(handle), &Vec::new()).expect("path");
    assert_eq!(path.target_id, "fs_main::arg::0");
    assert_eq!(path.display_label, "uv");
}

#[test]
fn operations_carry_the_widest_operand() {
    let (module, _) = setup();
    let (flow, _) = index_definitions(&module, SHADER);
    let product = by_text(&module, "color * strength");
    assert_eq!(expression_component_count(&module, &flow.calls, &in_main(product)), 3);
    let sum = by_text(&module, "w + tint.x");
    assert_eq!(expression_component_count(&module, &flow.calls, &in_main(sum)), 1);
}

#[test]
fn types_follow_loads_and_accesses() {
    let (module, _) = setup();
    let handle = named(&module, "tint");
    // A swizzle has no declared type; the local it reads has one.
    assert_eq!(type_handle_for_expr(&module, &in_main(handle)), None);
    let strength = named(&module, "strength");
    let ty = type_handle_for_expr(&module, &in_main(strength)).expect("typed");
    assert!(module.types[ty].inner.contains("Scalar"));
}

#[test]
fn reference_labels_prefer_let_names() {
    let (module, targets) = setup();
    let handle = named(&module, "tint");
    assert_eq!(
        reference_label_for_expr(&module, SHADER, &targets, &in_main(handle)),
        Some("tint".to_string())
    );
}
