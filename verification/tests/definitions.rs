use node_forge_render::pass_debug::definitions::{
    merge_definition_env_into, merge_definition_envs, DefinitionEnv,
};

fn env(entries: &[(&str, &[usize])]) -> DefinitionEnv {
    DefinitionEnv {
        entries: entries.iter().map(|(k, v)| (k.to_string(), v.to_vec())).collect(),
    }
}

fn lookup(e: &DefinitionEnv, key: &str) -> Option<Vec<usize>> {
    e.entries.iter().find(|(k, _)| k == key).map(|(_, v)| v.clone())
}

#[test]
fn merging_appends_new_definitions() {
    let mut target = env(&[("a", &[1, 2])]);
    merge_definition_env_into(&mut target, env(&[("a", &[2, 3]), ("b", &[4, 4])]));
    assert_eq!(lookup(&target, "a"), Some(vec![1, 2, 3]));
    assert_eq!(lookup(&target, "b"), Some(vec![4]));
    assert_eq!(target.entries.len(), 2);
}

#[test]
fn merging_an_env_into_itself_changes_nothing() {
    let e = env(&[("x", &[0, 5]), ("y", &[7])]);
    let mut t = e.clone();
    merge_definition_env_into(&mut t, e.clone());
    assert_eq!(t, e);
}

#[test]
fn merging_several_envs_starts_empty() {
    let merged = merge_definition_envs(vec![
        env(&[("x", &[1])]),
        env(&[("y", &[2]), ("x", &[3])]),
        env(&[]),
    ]);
    assert_eq!(lookup(&merged, "x"), Some(vec![1, 3]));
    assert_eq!(lookup(&merged, "y"), Some(vec![2]));
    assert_eq!(merge_definition_envs(Vec::new()).entries.len(), 0);
}
