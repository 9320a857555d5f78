use node_forge_render::pass_debug::source_mapping::find_matching_brace;
use node_forge_render::pass_debug::labels::{
    combine_access_projection, dedupe_projection, dependency_target_node_label,
    distinct_definition_source_range, operation_edge, swizzle_component_for_index,
    swizzle_pattern_label,
};
use node_forge_render::pass_debug::ir::IrSwizzleComponent;
use node_forge_render::pass_debug::{PassDebugAstNode, PassDebugDependencyTarget, PassDebugSource, PassDebugSourceRange};

const SOURCE: &str = r#"
@group(0) @binding(0) var<uniform> threshold: f32;

@fragment
fn fs_main(@location(0) uv: vec2f) -> @location(0) vec4f {
    var x: f32 = 0.0;
    let y = uv.x + threshold;
    return vec4f(y, x, x, 1.0);
}
"#;

fn labels(nodes: &[PassDebugAstNode]) -> Vec<String> {
    nodes.iter().map(|n| n.label.clone()).collect()
}

#[test]
fn outline_has_four_sections() {
    let doc = PassDebugSource::from_wgsl("outline.pass", SOURCE);
    assert_eq!(
        labels(&doc.ast_tree),
        vec!["Entry Points (1)", "Functions (0)", "Globals (1)", "Types / Constants"]
    );
    let entry = &doc.ast_tree[0].children[0];
    assert_eq!(entry.label, "Fragment fs_main");
    let entry_labels = labels(&entry.children);
    assert_eq!(entry_labels[0], "early_depth_test: None");
    assert_eq!(entry_labels[1], "workgroup_size: [0, 0, 0]");
    assert_eq!(entry_labels[2], "Arguments (1)");
    assert_eq!(entry_labels[3], "Result");
    assert_eq!(entry_labels[4], "Local Variables (1)");
    assert!(entry_labels[5].starts_with("Expressions ("));
    assert_eq!(entry_labels[6], "Body");
    assert_eq!(entry.children.len(), 7);
    let types = labels(&doc.ast_tree[3].children);
    assert!(types[0].starts_with("Types ("));
    assert_eq!(types[1], "Constants (0)");
    assert_eq!(types[2], "Overrides (0)");
    assert!(types[3].starts_with("Global Expressions ("));
}

#[test]
fn outline_nodes_link_to_their_targets() {
    let doc = PassDebugSource::from_wgsl("outline.pass", SOURCE);
    let global = &doc.ast_tree[2].children[0];
    assert_eq!(global.label, "[0] threshold");
    assert_eq!(global.target_id.as_deref(), Some("global::0"));
    assert_eq!(global.role.as_deref(), Some("global"));
    let threshold = doc.dependency_targets.iter().find(|t| t.id == "global::0").unwrap();
    assert_eq!(global.source_range, threshold.source_range);
    let global_labels = labels(&global.children);
    assert_eq!(global_labels[0], "space: Uniform");
    assert_eq!(global_labels[2], "type: [0]");
    assert_eq!(global_labels[3], "init: None");

    let entry = &doc.ast_tree[0].children[0];
    let arg = &entry.children[2].children[0];
    assert_eq!(arg.label, "0: uv");
    assert_eq!(arg.target_id.as_deref(), Some("fs_main::arg::0"));
    assert_eq!(arg.role.as_deref(), Some("argument"));
    let local = &entry.children[4].children[0];
    assert_eq!(local.label, "[0] x");
    assert_eq!(local.target_id.as_deref(), Some("fs_main::local::0"));
    let lets: Vec<&PassDebugAstNode> = entry.children[5]
        .children
        .iter()
        .filter(|n| n.role.as_deref() == Some("let"))
        .collect();
    assert_eq!(lets.len(), 2);
    assert!(lets.iter().all(|n| n.target_id.as_deref().unwrap().starts_with("fs_main::expr::")));
    let body = &entry.children[6];
    assert!(body.children.iter().any(|n| n.label.ends_with(": Return")));
}

#[test]
fn dependency_targets_are_ordered_by_scope_then_name() {
    let doc = PassDebugSource::from_wgsl("order.pass", SOURCE);
    let keys: Vec<(String, String, String)> = doc
        .dependency_targets
        .iter()
        .map(|t| (t.scope.clone(), t.name.clone(), t.kind.clone()))
        .collect();
    assert_eq!(
        keys,
        vec![
            ("fs_main".to_string(), "return".to_string(), "return".to_string()),
            ("fs_main".to_string(), "uv".to_string(), "argument".to_string()),
            ("fs_main".to_string(), "uv".to_string(), "let".to_string()),
            ("fs_main".to_string(), "x".to_string(), "local".to_string()),
            ("fs_main".to_string(), "y".to_string(), "let".to_string()),
            ("module".to_string(), "threshold".to_string(), "global".to_string()),
        ]
    );
    let target_labels: Vec<&str> = doc.dependency_targets.iter().map(|t| t.label.as_str()).collect();
    assert_eq!(
        target_labels,
        vec![
            "fs_main return",
            "fs_main argument uv",
            "fs_main let uv",
            "fs_main local x",
            "fs_main let y",
            "global threshold",
        ]
    );
    assert_eq!(doc.dependency_root_target_id.as_deref(), Some("fs_main::return"));
    assert!(doc.dependency_error.is_none());
}

#[test]
fn source_ranges_carry_line_and_column() {
    let doc = PassDebugSource::from_wgsl("lines.pass", SOURCE);
    let threshold = doc.dependency_targets.iter().find(|t| t.name == "threshold").unwrap();
    let range = threshold.source_range.unwrap();
    assert_eq!(range.line, 2);
    assert_eq!(range.column, 36);
    let x = doc.dependency_targets.iter().find(|t| t.name == "x").unwrap();
    assert_eq!(x.source_range.unwrap().line, 6);
    assert_eq!(x.source_range.unwrap().column, 9);
    let ret = doc.dependency_targets.iter().find(|t| t.kind == "return").unwrap();
    assert!(ret.source_range.is_none());
}

#[test]
fn root_is_the_first_entry_return_without_fragment_entries() {
    let source = "var<private> counter: u32;\n@compute @workgroup_size(8, 8, 1)\nfn main() { counter = 1u; }\n";
    let doc = PassDebugSource::from_wgsl("compute.pass", source);
    assert!(doc.parse_error.is_none());
    assert_eq!(doc.dependency_root_target_id.as_deref(), Some("main::return"));
    let entry = &doc.ast_tree[0].children[0];
    assert_eq!(entry.label, "Compute main");
    assert_eq!(entry.children[1].label, "workgroup_size: [8, 8, 1]");
}

#[test]
fn root_falls_back_to_first_collected_target_without_entry_points() {
    let source = "var<private> counter: u32;\nfn bump(step: u32) -> u32 { return counter + step; }\n";
    let doc = PassDebugSource::from_wgsl("library.pass", source);
    assert!(doc.parse_error.is_none());
    assert_eq!(doc.dependency_root_target_id.as_deref(), Some("global::0"));
    assert!(doc.dependency_targets.iter().all(|t| t.kind != "return"));
    assert_eq!(doc.ast_tree[1].children[0].label, "[0] bump");
    assert!(doc.dependency_targets.iter().any(|t| t.id == "bump::arg::0" && t.name == "step"));
}

#[test]
fn parse_error_document_holds_the_message() {
    let doc = PassDebugSource::from_wgsl("broken.pass", "fn f( {");
    let message = doc.parse_error.clone().expect("parse error");
    assert_eq!(doc.ast_tree.len(), 1);
    assert_eq!(doc.ast_tree[0].label, "Parse Error");
    assert_eq!(doc.ast_tree[0].children[0].label, message);
    assert!(doc.dependency_targets.is_empty());
    assert!(doc.dependency_root_target_id.is_none());
    assert_eq!(doc.pass_name, "broken.pass");
}

fn target(name: &str) -> PassDebugDependencyTarget {
    PassDebugDependencyTarget {
        id: "f::local::0".to_string(),
        name: name.to_string(),
        label: format!("f local {name}"),
        scope: "f".to_string(),
        kind: "local".to_string(),
        source_range: None,
    }
}

#[test]
fn node_labels_show_distinct_display_labels() {
    let t = target("x");
    assert_eq!(dependency_target_node_label(&t, None), "f local x (local)");
    assert_eq!(dependency_target_node_label(&t, Some("  x ")), "f local x (local)");
    assert_eq!(dependency_target_node_label(&t, Some("   ")), "f local x (local)");
    assert_eq!(dependency_target_node_label(&t, Some(" x.y ")), "x.y -> f local x (local)");
}

#[test]
fn edges_and_definition_ranges() {
    assert_eq!(operation_edge(Some("arg".to_string()), "Add".to_string()), Some("arg".to_string()));
    assert_eq!(operation_edge(None, "Add".to_string()), Some("Add".to_string()));
    let a = PassDebugSourceRange { start_byte: 1, end_byte: 2, line: 1, column: 2 };
    let b = PassDebugSourceRange { start_byte: 5, end_byte: 6, line: 1, column: 6 };
    assert_eq!(distinct_definition_source_range(Some(a), Some(a)), None);
    assert_eq!(distinct_definition_source_range(Some(a), Some(b)), Some(a));
    assert_eq!(distinct_definition_source_range(Some(a), None), Some(a));
    assert_eq!(distinct_definition_source_range(None, Some(b)), None);
}

#[test]
fn swizzles_and_projections() {
    assert_eq!(swizzle_component_for_index(2), Some("z"));
    assert_eq!(swizzle_component_for_index(4), None);
    assert_eq!(swizzle_pattern_label(3, [IrSwizzleComponent::Z, IrSwizzleComponent::Y, IrSwizzleComponent::X, IrSwizzleComponent::W]), "zyx");
    assert_eq!(swizzle_pattern_label(2, [IrSwizzleComponent::W, IrSwizzleComponent::W, IrSwizzleComponent::X, IrSwizzleComponent::X]), "ww");
    assert_eq!(dedupe_projection(vec![2, 0, 2, 1, 0]), vec![2, 0, 1]);
    let access = vec![3, 3, 1];
    assert_eq!(combine_access_projection(Some(&access), &vec![0, 1, 2, 7]), vec![3, 1]);
    assert_eq!(combine_access_projection(None, &vec![1, 1, 0]), vec![1, 0]);
}

#[test]
fn matching_brace_is_the_first_balanced_close() {
    assert_eq!(find_matching_brace("{a{b}c}d", 0), Some(6));
    assert_eq!(find_matching_brace("{a{b}", 0), None);
    assert_eq!(find_matching_brace("x{}}", 1), Some(2));
}
