use node_forge_render::render_plan::blur_routes::prebuilt_route_texture_aliases;

fn views(prefix: &str) -> Vec<String> {
    (0..5).map(|level| format!("{prefix}.mip{level}")).collect()
}

#[test]
fn prebuilt_routes_alias_onto_two_mip_chains() {
    let a = views("sys.blur.layer.ping.a");
    let b = views("sys.blur.layer.ping.b");
    let aliases = prebuilt_route_texture_aliases("layer", &a, &b);
    let expected: Vec<(String, String)> = vec![
        ("sys.blur.layer.h.route1", "sys.blur.layer.ping.a.mip0"),
        ("sys.blur.layer.v.route1", "sys.blur.layer.ping.b.mip0"),
        ("sys.blur.layer.h.route2", "sys.blur.layer.ping.b.mip1"),
        ("sys.blur.layer.v.route2", "sys.blur.layer.ping.a.mip1"),
        ("sys.blur.layer.ds.2.route2", "sys.blur.layer.ping.a.mip1"),
        ("sys.blur.layer.h.route4", "sys.blur.layer.ping.b.mip2"),
        ("sys.blur.layer.v.route4", "sys.blur.layer.ping.a.mip2"),
        ("sys.blur.layer.ds.4.route4", "sys.blur.layer.ping.a.mip2"),
        ("sys.blur.layer.h.route8", "sys.blur.layer.ping.b.mip3"),
        ("sys.blur.layer.v.route8", "sys.blur.layer.ping.a.mip3"),
        ("sys.blur.layer.ds.8.route8", "sys.blur.layer.ping.a.mip3"),
        ("sys.blur.layer.h.route16", "sys.blur.layer.ping.b.mip4"),
        ("sys.blur.layer.v.route16", "sys.blur.layer.ping.a.mip4"),
        ("sys.blur.layer.ds.8.route16", "sys.blur.layer.ping.b.mip3"),
        ("sys.blur.layer.ds.2.route16", "sys.blur.layer.ping.a.mip4"),
    ]
    .into_iter()
    .map(|(k, v)| (k.to_string(), v.to_string()))
    .collect();
    assert_eq!(aliases, expected);
}

#[test]
fn prebuilt_route_aliases_have_distinct_route_textures() {
    let a = views("A");
    let b = views("B");
    let aliases = prebuilt_route_texture_aliases("x.h.route1", &a, &b);
    let mut keys: Vec<&String> = aliases.iter().map(|(k, _)| k).collect();
    keys.sort();
    keys.dedup();
    assert_eq!(keys.len(), aliases.len());
}
