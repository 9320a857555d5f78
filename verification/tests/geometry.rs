use node_forge_render::render_plan::geometry::{
    ensure_trs_helper_decl, merge_vertex_wgsl_decls, SYS_APPLY_TRS_XYZ_WGSL,
};

#[test]
fn merging_skips_blank_sides() {
    assert_eq!(merge_vertex_wgsl_decls("a".to_string(), "  \n".to_string()), "a");
    assert_eq!(merge_vertex_wgsl_decls(" \t".to_string(), "b".to_string()), "b");
    assert_eq!(merge_vertex_wgsl_decls("a".to_string(), "b".to_string()), "a\nb");
    assert_eq!(merge_vertex_wgsl_decls("a\n".to_string(), "b".to_string()), "a\nb");
}

#[test]
fn helper_is_appended_once() {
    let once = ensure_trs_helper_decl("struct S { x: f32 }".to_string());
    assert!(once.starts_with("struct S { x: f32 }\n"));
    assert!(once.ends_with('\n'));
    assert_eq!(once.matches("fn sys_apply_trs_xyz(").count(), 1);
    let twice = ensure_trs_helper_decl(once.clone());
    assert_eq!(twice, once);
    assert_eq!(ensure_trs_helper_decl(String::new()), SYS_APPLY_TRS_XYZ_WGSL);
}

#[test]
fn declarations_with_the_helper_are_kept() {
    let decls = "fn sys_apply_trs_xyz(p: vec3f) -> vec3f { return p; }".to_string();
    assert_eq!(ensure_trs_helper_decl(decls.clone()), decls);
}
