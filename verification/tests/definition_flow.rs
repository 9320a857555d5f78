use node_forge_render::pass_debug::definitions::DefinitionEnv;
use node_forge_render::pass_debug::flow::{index_definitions, DefinitionFlow};
use node_forge_render::pass_debug::lowering::parse_wgsl_module;

const BRANCHES: &str = r#"
var<private> counter: f32;

fn helper(x: f32) -> f32 {
    return x * 2.0;
}

@fragment
fn fs_main(@location(0) uv: vec2f) -> @location(0) vec4f {
    var color: vec3f = vec3f(0.0);
    var alpha: f32 = 1.0;
    if (uv.x > 0.5) {
        color = vec3f(1.0, 0.0, 0.0);
    } else {
        color.y = 1.0;
    }
    alpha = helper(alpha);
    counter = alpha;
    return vec4f(color, alpha);
}
"#;

const SWITCH: &str = r#"
fn pick(i: i32) -> f32 {
    var v: f32 = 0.0;
    switch i {
        case 1: { v = 1.0; }
        default: { v = 2.0; }
    }
    return v;
}
"#;

const LOOP: &str = r#"
fn count() -> i32 {
    var n: i32 = 0;
    loop {
        if n > 3 { break; }
        n = n + 1;
    }
    return n;
}
"#;

fn analyse(source: &str) -> (DefinitionFlow, DefinitionEnv) {
    let module = parse_wgsl_module(source).expect("shader parses");
    index_definitions(&module, source)
}

fn defs_of(env: &DefinitionEnv, target: &str) -> Vec<usize> {
    env.entries
        .iter()
        .find(|(key, _)| key == target)
        .map(|(_, defs)| defs.clone())
        .unwrap_or_default()
}

fn targets(flow: &DefinitionFlow) -> Vec<String> {
    flow.definitions.iter().map(|d| d.target_id.clone()).collect()
}

#[test]
fn initializers_and_stores_are_definition_sites_in_order() {
    let (flow, _) = analyse(BRANCHES);
    assert_eq!(
        targets(&flow),
        vec![
            "fs_main::local::0",
            "fs_main::local::1",
            "fs_main::local::0",
            "fs_main::local::0",
            "fs_main::local::1",
            "global::0",
        ]
    );
    assert!(flow.definitions.iter().all(|d| d.scope == "fs_main"));
}

#[test]
fn branches_merge_their_definitions() {
    let (flow, finals) = analyse(BRANCHES);
    assert_eq!(defs_of(&finals, "fs_main::local::0"), vec![2, 3]);
    assert_eq!(defs_of(&finals, "fs_main::local::1"), vec![4]);
    assert_eq!(defs_of(&finals, "global::0"), vec![5]);
    // The store after the branches is reached by both branch definitions.
    assert_eq!(defs_of(&flow.definitions[4].env, "fs_main::local::0"), vec![2, 3]);
    assert_eq!(defs_of(&flow.definitions[4].env, "fs_main::local::1"), vec![1]);
}

#[test]
fn stores_inside_a_branch_carry_the_condition() {
    let (flow, _) = analyse(BRANCHES);
    let accept = &flow.definitions[2];
    assert_eq!(accept.controls.len(), 1);
    assert_eq!(accept.controls[0].label, "[condition] if");
    let reject = &flow.definitions[3];
    assert_eq!(reject.controls.len(), 1);
    assert!(flow.definitions[4].controls.is_empty());
    assert!(flow.definitions[0].controls.is_empty());
}

#[test]
fn store_sites_point_at_the_stored_name() {
    let (flow, _) = analyse(BRANCHES);
    for index in [2usize, 3, 4, 5] {
        let range = flow.definitions[index].source_range.expect("store has a range");
        let text = &BRANCHES[range.start_byte..range.end_byte];
        let name = if index == 5 {
            "counter"
        } else if index == 4 {
            "alpha"
        } else {
            "color"
        };
        assert!(text.starts_with(name), "site {index} shows {text:?}");
    }
}

#[test]
fn returns_and_calls_are_recorded_per_scope() {
    let (flow, _) = analyse(BRANCHES);
    let scopes: Vec<&str> = flow.returns.iter().map(|r| r.scope.as_str()).collect();
    assert_eq!(scopes, vec!["fs_main", "helper"]);
    assert_eq!(flow.calls.len(), 1);
    assert_eq!(flow.calls[0].scope, "fs_main");
    assert_eq!(flow.calls[0].function, 0);
    assert_eq!(flow.calls[0].arguments.len(), 1);
    // The return of fs_main is reached by the store into the global.
    assert_eq!(defs_of(&flow.returns[0].env, "global::0"), vec![5]);
}

#[test]
fn switch_cases_merge_into_the_environment_before_them() {
    let (flow, finals) = analyse(SWITCH);
    assert_eq!(targets(&flow), vec!["pick::local::0"; 3]);
    assert_eq!(defs_of(&finals, "pick::local::0"), vec![0, 1, 2]);
    let labels: Vec<&str> = flow.definitions[1].controls.iter().map(|c| c.label.as_str()).collect();
    assert_eq!(labels, vec!["[condition] switch selector", "[condition] case I32(1)"]);
    let labels: Vec<&str> = flow.definitions[2].controls.iter().map(|c| c.label.as_str()).collect();
    assert_eq!(labels, vec!["[condition] switch selector", "[condition] case Default"]);
}

#[test]
fn loops_keep_the_definitions_from_before_the_loop() {
    let (flow, finals) = analyse(LOOP);
    assert_eq!(targets(&flow), vec!["count::local::0"; 2]);
    assert_eq!(defs_of(&finals, "count::local::0"), vec![0, 1]);
    assert_eq!(defs_of(&flow.returns[0].env, "count::local::0"), vec![0, 1]);
}

#[test]
fn expressions_record_the_environment_of_their_first_emission() {
    let (flow, _) = analyse(LOOP);
    assert!(!flow.expression_envs.is_empty());
    let mut keys: Vec<(String, usize)> =
        flow.expression_envs.iter().map(|e| (e.scope.clone(), e.handle)).collect();
    let total = keys.len();
    keys.sort();
    keys.dedup();
    assert_eq!(keys.len(), total);
}

#[test]
fn reaching_definitions_name_sites_of_their_own_target() {
    for source in [BRANCHES, SWITCH, LOOP] {
        let (flow, finals) = analyse(source);
        for (target, defs) in &finals.entries {
            for id in defs {
                assert_eq!(&flow.definitions[*id].target_id, target);
            }
        }
        for (index, site) in flow.definitions.iter().enumerate() {
            for (target, defs) in &site.env.entries {
                for id in defs {
                    assert!(*id < index);
                    assert_eq!(&flow.definitions[*id].target_id, target);
                }
            }
        }
    }
}
