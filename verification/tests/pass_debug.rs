use node_forge_render::pass_debug::PassDebugSource;

const TWO_STAGE_SOURCE: &str = r#"
@vertex
fn vs_main(@location(0) position: vec3f) -> @builtin(position) vec4f {
    return vec4f(position, 1.0);
}

@fragment
fn fs_main() -> @location(0) vec4f {
    return vec4f(1.0);
}
"#;

const RANGES_SOURCE: &str = r#"
@group(0) @binding(0) var<uniform> threshold: f32;

@fragment
fn fs_main(@location(0) uv: vec2f) -> @location(0) vec4f {
    var x: f32 = 0.0;
    let y = uv.x + threshold;
    return vec4f(y, x, x, 1.0);
}
"#;

fn assert_target_range_selects_name(doc: &PassDebugSource, name: &str) {
    let target = doc
        .dependency_targets
        .iter()
        .find(|target| target.name == name)
        .unwrap_or_else(|| panic!("missing dependency target named {name}"));
    let range = target
        .source_range
        .unwrap_or_else(|| panic!("missing source range for target named {name}"));
    assert_eq!(&doc.module_source[range.start_byte..range.end_byte], name);
    assert!(range.line > 0);
    assert!(range.column > 0);
}

fn check_valid_wgsl_builds_non_empty_ast() {
    let doc = PassDebugSource::from_wgsl("test.pass", TWO_STAGE_SOURCE);

    assert!(doc.parse_error.is_none());
    assert!(!doc.ast_tree.is_empty());
    assert!(doc
        .ast_tree
        .iter()
        .any(|n| n.label.starts_with("Entry Points")));
}

fn check_invalid_wgsl_preserves_source_and_reports_error() {
    let source = "fn nope() -> { return vec4f(1.0); }";

    let doc = PassDebugSource::from_wgsl("bad.pass", source);

    assert_eq!(doc.module_source, source);
    assert!(doc.parse_error.is_some());
    assert_eq!(doc.ast_tree[0].label, "Parse Error");
}

fn check_dependency_targets_include_source_ranges_for_names() {
    let doc = PassDebugSource::from_wgsl("ranges.pass", RANGES_SOURCE);

    assert!(doc.parse_error.is_none());
    for name in ["threshold", "uv", "x", "y"] {
        assert_target_range_selects_name(&doc, name);
    }
}

#[test]
fn valid_wgsl_builds_non_empty_ast() {
    check_valid_wgsl_builds_non_empty_ast();
}

#[test]
fn mod_valid_wgsl_builds_non_empty_ast() {
    check_valid_wgsl_builds_non_empty_ast();
}

#[test]
fn invalid_wgsl_preserves_source_and_reports_error() {
    check_invalid_wgsl_preserves_source_and_reports_error();
}

#[test]
fn mod_invalid_wgsl_preserves_source_and_reports_error() {
    check_invalid_wgsl_preserves_source_and_reports_error();
}

#[test]
fn dependency_targets_include_source_ranges_for_names() {
    check_dependency_targets_include_source_ranges_for_names();
}

#[test]
fn mod_dependency_targets_include_source_ranges_for_names() {
    check_dependency_targets_include_source_ranges_for_names();
}

#[test]
fn render_target_metadata_is_preserved() {
    let source = "@fragment fn fs_main() -> @location(0) vec4f { return vec4f(1.0); }";

    let doc = PassDebugSource::from_wgsl_with_render_target(
        "target.pass",
        source,
        Some("sys.output.rt".to_string()),
        Some([640, 360]),
    );

    assert_eq!(doc.target_texture.as_deref(), Some("sys.output.rt"));
    assert_eq!(doc.target_size, Some([640, 360]));
    assert!(doc.parse_error.is_none());
}
