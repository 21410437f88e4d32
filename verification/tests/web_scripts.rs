use axiom_core::exports::strip_warnings;
use axiom_core::web_scripts::{script_compiles_for_wasm, ship_decision, strip_web_incompatible_scripts, ScriptEntry, WebScriptSet};

const LUA_EMPTY: &str = "function update(entity, world, dt)\nend";
const RHAI_OK: &str = "fn update(entity, world, dt) { entity.vx += 1; }";
const LUA_HARD: &str =
    "function update(entity, world, dt)\n  repeat\n    entity.vx = entity.vx + 1\n  until entity.vx > 5\nend";

fn entry(name: &str, source: &str) -> ScriptEntry {
    ScriptEntry { name: name.to_string(), source: source.to_string() }
}

#[test]
fn strip_web_incompatible_scripts_clears_only_incompatible_payloads() {
    let mut set = WebScriptSet {
        scripts: vec![entry("enemy_patrol", LUA_EMPTY), entry("rhai_ok", RHAI_OK), entry("lua_hard", LUA_HARD)],
        global_scripts: vec!["enemy_patrol".to_string()],
        entity_scripts: vec![Some("enemy_patrol".to_string())],
    };
    // The Lua-compatible converter's output for each script, where it has one.
    let converted = vec![Some("fn update(world, dt) {\n}".to_string()), None, None];
    let summary = strip_web_incompatible_scripts(&mut set, &converted);
    assert_eq!(summary.scripts_removed, 1);
    assert_eq!(summary.scripts_transpiled, 1);
    assert_eq!(summary.entity_bindings_removed, 0);
    assert_eq!(summary.removed_script_names, vec!["lua_hard".to_string()]);
    assert_eq!(summary.transpiled_script_names, vec!["enemy_patrol".to_string()]);
    let names: Vec<&str> = set.scripts.iter().map(|e| e.name.as_str()).collect();
    assert!(names.contains(&"enemy_patrol"));
    assert!(names.contains(&"rhai_ok"));
    assert!(!names.contains(&"lua_hard"));
    assert!(set.global_scripts.contains(&"enemy_patrol".to_string()));
    assert_eq!(set.entity_scripts[0], Some("enemy_patrol".to_string()));
    // The converted source is the one that ships.
    assert_eq!(set.scripts[0].source, "fn update(world, dt) {\n}");
    assert_eq!(set.scripts[1].source, RHAI_OK);
}

#[test]
fn strip_web_incompatible_scripts_removes_broken_entity_bindings() {
    let mut set = WebScriptSet {
        scripts: vec![entry("lua_hard", LUA_HARD)],
        global_scripts: vec!["lua_hard".to_string()],
        entity_scripts: vec![Some("lua_hard".to_string())],
    };
    let summary = strip_web_incompatible_scripts(&mut set, &vec![None]);
    assert_eq!(summary.scripts_removed, 1);
    assert_eq!(summary.entity_bindings_removed, 1);
    assert!(set.scripts.is_empty());
    assert!(set.global_scripts.is_empty());
    assert!(set.entity_scripts[0].is_none());
}

#[test]
fn rhai_compilation_depends_on_entry_point() {
    assert!(script_compiles_for_wasm(RHAI_OK, false));
    assert!(script_compiles_for_wasm("fn update(world, dt) { }", true));
    assert!(!script_compiles_for_wasm(LUA_EMPTY, false));
    assert!(!script_compiles_for_wasm("fn update(entity, world, dt) {", false));
}

#[test]
fn conversion_that_still_fails_is_dropped_and_names_are_sorted() {
    let mut set = WebScriptSet {
        scripts: vec![entry("zeta", LUA_EMPTY), entry("alpha", LUA_EMPTY), entry("mid", RHAI_OK)],
        global_scripts: vec![],
        entity_scripts: vec![Some("alpha".to_string()), None, Some("mid".to_string()), Some("ghost".to_string())],
    };
    let converted = vec![Some("function still_lua()".to_string()), Some("repeat".to_string()), None];
    let summary = strip_web_incompatible_scripts(&mut set, &converted);
    assert_eq!(summary.removed_script_names, vec!["alpha".to_string(), "zeta".to_string()]);
    assert_eq!(summary.scripts_transpiled, 0);
    // Every binding to a name that no kept script has goes, also one to a
    // name that was never a script.
    assert_eq!(summary.entity_bindings_removed, 2);
    assert_eq!(set.entity_scripts, vec![None, None, Some("mid".to_string()), None]);
    let warnings = strip_warnings(&summary);
    assert_eq!(
        warnings,
        vec![
            "Stripped 2 script source(s) and 2 entity script binding(s) for web export compatibility (Rhai backend): [alpha, zeta]."
                .to_string()
        ]
    );
}

#[test]
fn ship_decision_prefers_the_source_as_written() {
    let conv = Some("fn update(world, dt) {}".to_string());
    assert_eq!(ship_decision("x", &conv, true, true), Some(("x".to_string(), false)));
    assert_eq!(ship_decision("x", &conv, false, true), Some(("fn update(world, dt) {}".to_string(), true)));
    assert_eq!(ship_decision("x", &conv, false, false), None);
    assert_eq!(ship_decision("x", &None, false, true), None);
    // Unsupported Lua constructs disqualify a source even when it compiles.
    assert_eq!(ship_decision("repeat x until y", &conv, true, true), Some(("fn update(world, dt) {}".to_string(), true)));
    assert_eq!(ship_decision("goto a", &Some("break".to_string()), true, true), None);
}

#[test]
fn stripping_twice_changes_nothing_more() {
    let mut set = WebScriptSet {
        scripts: vec![entry("enemy_patrol", LUA_EMPTY), entry("rhai_ok", RHAI_OK), entry("lua_hard", LUA_HARD)],
        global_scripts: vec!["enemy_patrol".to_string(), "lua_hard".to_string()],
        entity_scripts: vec![Some("lua_hard".to_string()), Some("rhai_ok".to_string())],
    };
    let converted = vec![Some("fn update(world, dt) {\n}".to_string()), None, None];
    strip_web_incompatible_scripts(&mut set, &converted);
    let scripts_once: Vec<(String, String)> = set.scripts.iter().map(|e| (e.name.clone(), e.source.clone())).collect();
    let globals_once = set.global_scripts.clone();
    let bindings_once = set.entity_scripts.clone();
    let none: Vec<Option<String>> = vec![None; set.scripts.len()];
    let again = strip_web_incompatible_scripts(&mut set, &none);
    assert_eq!(again.scripts_removed, 0);
    assert_eq!(again.scripts_transpiled, 0);
    assert_eq!(again.entity_bindings_removed, 0);
    let scripts_twice: Vec<(String, String)> = set.scripts.iter().map(|e| (e.name.clone(), e.source.clone())).collect();
    assert_eq!(scripts_twice, scripts_once);
    assert_eq!(set.global_scripts, globals_once);
    assert_eq!(set.entity_scripts, bindings_once);
}
