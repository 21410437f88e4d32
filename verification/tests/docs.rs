use axiom_core::docs_page::{docs_components, docs_scripts, docs_security, get_docs_html, ExampleDocRow};
use axiom_core::routes::registered_routes;
use axiom_core::docs::{docs_constraints, docs_endpoints, docs_presets, docs_templates, endpoint_rows_html, html_escape, EndpointDoc};

#[test]
fn docs_include_export_endpoints() {
    let paths: Vec<String> = docs_endpoints().into_iter().map(|e| e.path.to_string()).collect();
    for p in [
        "/export/web",
        "/export/desktop",
        "/physics/raycast_entities",
        "/audio/state",
        "/camera/state",
        "/ui/state",
        "/dialogue/state",
        "/scene/describe",
        "/animations",
        "/animations/state",
        "/sprites/sheets",
        "/entities/{id}/animation",
        "/entities/reset_non_player",
        "/particles/presets",
        "/entities/{id}/particles",
        "/docs/scripts",
        "/docs/examples",
        "/docs/security",
    ] {
        assert!(paths.iter().any(|q| q == p), "missing {p}");
    }
}

#[test]
fn docs_lists_are_complete() {
    assert_eq!(docs_endpoints().len(), 170);
    let presets = docs_presets();
    assert_eq!(presets.len(), 11);
    assert_eq!(presets[0], "platformer_player");
    assert_eq!(*presets.last().unwrap(), "moving_platform");
    assert!(docs_templates().contains(&"top_down_dungeon"));
    let constraints = docs_constraints();
    assert_eq!(constraints.len(), 17);
    assert_eq!(constraints[0].name, "reachable");
    assert_eq!(constraints[16].name, "asset_missing");
}

#[test]
fn html_escape_replaces_special_characters() {
    assert_eq!(html_escape("a<b>&\"c'"), "a&lt;b&gt;&amp;&quot;c&#39;");
    assert_eq!(html_escape("plain"), "plain");
    assert_eq!(html_escape(""), "");
}

#[test]
fn endpoint_rows_escape_every_cell() {
    let eps = vec![
        EndpointDoc { method: "GET", path: "/a", description: "x < y" },
        EndpointDoc { method: "POST", path: "/b&c", description: "ok" },
    ];
    assert_eq!(
        endpoint_rows_html(&eps),
        "<tr><td><code>GET</code></td><td><code>/a</code></td><td>x &lt; y</td></tr>\
         <tr><td><code>POST</code></td><td><code>/b&amp;c</code></td><td>ok</td></tr>"
    );
    assert_eq!(endpoint_rows_html(&vec![]), "");
}

#[test]
fn docs_scripts_contains_expected_groups() {
    let groups: Vec<&str> = docs_scripts().iter().map(|g| g.group).collect();
    assert!(groups.contains(&"entity"));
    assert!(groups.contains(&"world_core"));
    assert!(groups.contains(&"world_gameplay"));
    let entity = &docs_scripts()[0];
    assert!(entity.methods.contains(&"knockback(dx, dy)"));
    assert!(docs_scripts()[2].fields.is_empty());
}

#[test]
fn docs_components_and_security() {
    let comps = docs_components();
    assert_eq!(comps.len(), 21);
    assert_eq!(comps[0].name, "collider");
    assert_eq!(comps[0].fields, vec![("width", "f32"), ("height", "f32")]);
    assert!(comps[1].fields.is_empty());
    assert_eq!(comps[20].name, "inventory");
    let sec = docs_security();
    assert_eq!(sec.token_env, "AXIOM_API_TOKEN");
    assert_eq!(sec.rate_env, "AXIOM_API_RATE_LIMIT_PER_SEC");
    assert_eq!(sec.rate_default, None);
    assert_eq!(sec.accepted_headers, vec!["Authorization: Bearer <token>", "X-API-Key: <token>"]);
    assert_eq!(sec.script_envs.len(), 5);
}

#[test]
fn docs_page_lists_endpoints_examples_and_security() {
    let examples = vec![ExampleDocRow {
        name: "bullet_hell_arena".to_string(),
        genre: "shooter".to_string(),
        template: "arena".to_string(),
        difficulty: "0.70".to_string(),
        seed: 42,
        constraints: vec!["reachable".to_string(), "difficulty_range:0.25:0.95".to_string()],
    }];
    let html = get_docs_html(&examples);
    assert!(html.starts_with("<!doctype html><html><head>"));
    assert!(html.ends_with("</body></html>"));
    assert!(html.contains("<tr><td><code>GET</code></td><td><code>/docs/security</code></td>"));
    assert!(html.contains(
        "<tr><td><code>bullet_hell_arena</code></td><td>shooter</td><td><code>arena</code></td>\
         <td>0.70</td><td>42</td><td>reachable, difficulty_range:0.25:0.95</td></tr>"
    ));
    assert!(html.contains("controls per-client request rate (default unlimited)."));
    assert!(html.contains(
        "Script runtime guards: <code>AXIOM_SCRIPT_ENTITY_BUDGET_MS</code>, <code>AXIOM_SCRIPT_GLOBAL_BUDGET_MS</code>"
    ));
    assert_eq!(html.matches("<tr><td><code>").count(), 170 + 1);
}

#[test]
fn docs_cover_all_registered_routes() {
    let registered_paths: std::collections::BTreeSet<String> =
        registered_routes().into_iter().map(|p| p.to_string()).collect();
    assert!(!registered_paths.is_empty(), "Failed to discover any registered routes");

    let documented_paths: std::collections::BTreeSet<String> =
        docs_endpoints().into_iter().map(|e| e.path.to_string()).collect();

    let missing: Vec<String> = registered_paths.difference(&documented_paths).cloned().collect();
    assert!(missing.is_empty(), "Missing docs entries for routes: {missing:?}");
}

#[test]
fn registered_routes_are_distinct_and_include_docs_routes() {
    let routes = registered_routes();
    assert_eq!(routes.len(), 141);
    let set: std::collections::BTreeSet<&str> = routes.iter().copied().collect();
    assert_eq!(set.len(), routes.len());
    for p in ["/state", "/docs", "/docs/examples", "/export/web", "/entities/{id}/animation"] {
        assert!(set.contains(p), "missing route {p}");
    }
}

#[test]
fn docs_presets_are_distinct_and_cover_example_presets() {
    let presets = docs_presets();
    let set: std::collections::BTreeSet<&str> = presets.iter().copied().collect();
    assert_eq!(set.len(), 11);
    for ex in axiom_core::examples::builtin_examples() {
        for e in &ex.extra_entities {
            assert!(set.contains(e.preset), "{} uses undocumented preset {}", ex.name, e.preset);
        }
    }
}
