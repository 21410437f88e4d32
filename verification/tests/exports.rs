use axiom_core::api_types::{ExportDesktopRequest, ExportWebRequest};
use axiom_core::exports::{
    format_command_error, plan_desktop_export, plan_web_export,
    desktop_artifact_path, has_unhandled_lua_syntax, host_desktop_target, path_join,
    resolve_desktop_target, wasm_artifact_path, wrap_rhai_source,
};

const HOST: &str = "x86_64-unknown-linux-gnu";

#[test]
fn resolve_desktop_target_aliases() {
    assert_eq!(
        resolve_desktop_target(Some("windows"), HOST).unwrap(),
        "x86_64-pc-windows-msvc"
    );
    assert_eq!(
        resolve_desktop_target(Some("linux"), HOST).unwrap(),
        "x86_64-unknown-linux-gnu"
    );
    assert_eq!(
        resolve_desktop_target(Some("macos"), HOST).unwrap(),
        "x86_64-apple-darwin"
    );
    assert_eq!(
        resolve_desktop_target(Some("x86_64-unknown-linux-gnu"), HOST).unwrap(),
        "x86_64-unknown-linux-gnu"
    );
}

#[test]
fn export_artifact_paths_are_stable() {
    let root = "target";
    let wasm = wasm_artifact_path(root, "release");
    assert!(std::path::Path::new(&wasm).ends_with(std::path::Path::new(
        "target/wasm32-unknown-unknown/release/axiom.wasm"
    )));

    let win = desktop_artifact_path(root, "x86_64-pc-windows-msvc", "debug");
    assert!(std::path::Path::new(&win).ends_with(std::path::Path::new(
        "target/x86_64-pc-windows-msvc/debug/axiom.exe"
    )));

    let linux = desktop_artifact_path(root, "x86_64-unknown-linux-gnu", "release");
    assert!(std::path::Path::new(&linux).ends_with(std::path::Path::new(
        "target/x86_64-unknown-linux-gnu/release/axiom"
    )));
}

#[test]
fn resolve_desktop_target_uses_host_and_trims() {
    assert_eq!(resolve_desktop_target(None, HOST).unwrap(), HOST);
    assert_eq!(resolve_desktop_target(Some("   "), HOST).unwrap(), HOST);
    assert_eq!(resolve_desktop_target(Some("  WIN "), HOST).unwrap(), "x86_64-pc-windows-msvc");
    assert_eq!(resolve_desktop_target(Some("Darwin"), HOST).unwrap(), "x86_64-apple-darwin");
    assert_eq!(resolve_desktop_target(Some(" custom-Triple "), HOST).unwrap(), "custom-Triple");
}

#[test]
fn host_target_follows_os_name() {
    assert_eq!(host_desktop_target("windows"), "x86_64-pc-windows-msvc");
    assert_eq!(host_desktop_target("macos"), "x86_64-apple-darwin");
    assert_eq!(host_desktop_target("linux"), "x86_64-unknown-linux-gnu");
    assert_eq!(host_desktop_target("freebsd"), "x86_64-unknown-linux-gnu");
}

#[test]
fn path_join_matches_std_for_relative_parts() {
    for (base, comp) in [("target", "release"), ("target/", "release"), ("", "x"), ("a/b", "/abs")] {
        let expected = std::path::Path::new(base).join(comp);
        assert_eq!(path_join(base, comp), expected.to_string_lossy());
    }
}

#[test]
fn wrap_rhai_source_appends_entry_point() {
    assert_eq!(
        wrap_rhai_source("fn update(entity, world, dt) {}", true),
        "fn update(entity, world, dt) {}\nfn __axiom_entity_entry(entity, world, dt) { update(entity, world, dt); }"
    );
    assert_eq!(
        wrap_rhai_source("fn update(world, dt) {}", false),
        "fn update(world, dt) {}\nfn __axiom_global_entry(world, dt) { update(world, dt); }"
    );
}

#[test]
fn unhandled_lua_syntax_detection() {
    assert!(!has_unhandled_lua_syntax("   \n  "));
    assert!(has_unhandled_lua_syntax("repeat\n x = x + 1\nuntil x > 5"));
    assert!(!has_unhandled_lua_syntax("local repeated = 1"));
    assert!(has_unhandled_lua_syntax("for i = 1, 3 do\n end"));
    assert!(has_unhandled_lua_syntax("::label::"));
    assert!(has_unhandled_lua_syntax("while true do break end"));
    assert!(!has_unhandled_lua_syntax("fn update(entity, world, dt) { entity.vx += 1; }"));
    assert!(!has_unhandled_lua_syntax("my_break_flag = true"));
}

#[test]
fn command_errors_quote_stderr_then_stdout_then_status() {
    assert_eq!(format_command_error("  error: a\nline two\r\n\n", "out", "exit status: 1"), "error: a | line two");
    assert_eq!(format_command_error(" \n ", "  built 3 crates\n", "exit status: 1"), "built 3 crates");
    assert_eq!(format_command_error("", "", "exit status: 101"), "exit status exit status: 101");
    let many: String = (1..=20).map(|i| format!("l{i}\n")).collect();
    assert_eq!(
        format_command_error(&many, "", "x"),
        "l1 | l2 | l3 | l4 | l5 | l6 | l7 | l8 | l9 | l10 | l11 | l12"
    );
    // Agrees with the standard library's own line splitting.
    let text = "a\r\nb\n\nc\rd\ne";
    let expected = text.lines().collect::<Vec<_>>().join(" | ");
    assert_eq!(format_command_error(text, "", ""), expected);
}

#[test]
fn export_plans_apply_defaults_and_clamps() {
    let web = plan_web_export(&ExportWebRequest {
        title: None,
        width: Some(10),
        height: Some(99999),
        levels: None,
        embed_assets: None,
        strip_incompatible_scripts: Some(false),
        release: None,
    });
    assert_eq!(web.title, "AxiomGame");
    assert_eq!(web.safe_title, "AxiomGame");
    assert_eq!((web.width, web.height), (320, 4096));
    assert_eq!(web.levels, "all");
    assert!(web.embed_assets);
    assert!(!web.strip_incompatible_scripts);
    assert!(!web.release);
    assert_eq!(web.profile, "debug");

    let desk = plan_desktop_export(
        &ExportDesktopRequest { title: Some("My Game!".to_string()), target: Some("Win".to_string()), release: None },
        HOST,
        "exports",
    )
    .unwrap();
    assert_eq!(desk.safe_title, "MyGame");
    assert!(desk.release);
    assert_eq!(desk.profile, "release");
    assert_eq!(desk.triple, "x86_64-pc-windows-msvc");
    assert_eq!(desk.out_dir, "exports/desktop/x86_64-pc-windows-msvc");
    assert_eq!(desk.game_data_json, "exports/desktop/x86_64-pc-windows-msvc/game_data.json");
    assert_eq!(desk.binary, "exports/desktop/x86_64-pc-windows-msvc/MyGame.exe");
}

#[test]
fn web_export_page_and_bootstrap() {
    let (title, width, height) = ("Axiom <Demo>", 960u32, 540u32);
    let expected = format!(
        r#"<!doctype html>
<html lang="en">
<head>
  <meta charset="utf-8" />
  <meta name="viewport" content="width=device-width,initial-scale=1" />
  <title>{title}</title>
  <style>
    body {{ margin: 0; background: #111; color: #eee; font-family: monospace; }}
    #app {{ width: 100vw; height: 100vh; display: grid; place-items: center; }}
    canvas {{ width: min(100vw, {width}px); height: min(100vh, {height}px); image-rendering: pixelated; }}
    #status {{ position: fixed; left: 8px; top: 8px; background: rgba(0,0,0,0.5); padding: 6px 8px; border-radius: 4px; }}
  </style>
</head>
<body>
  <div id="app">
    <canvas id="bevy" width="{width}" height="{height}"></canvas>
  </div>
  <div id="status">Loading {title}...</div>
  <script type="module" src="./bootstrap.js"></script>
</body>
</html>
"#
    );
    assert_eq!(axiom_core::exports::web_index_html(title, width, height), expected);
    assert!(axiom_core::exports::web_bootstrap_js(true).starts_with("import init from \"./axiom.js\";"));
    assert!(axiom_core::exports::web_bootstrap_js(false).contains("install wasm-bindgen-cli"));
}
