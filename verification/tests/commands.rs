use axiom_core::audio::AudioRegistry;
use axiom_core::commands::{
    allocate_network_id, allocate_network_ids, asset_file_name, check_animation_graph, check_animation_state,
    check_set_level, config_override_key, entity_info_summary, plan_load, plan_playtest, plan_simulation,
    plan_sprite_sheet, play_audio_request, record_script_load, require_name, script_import_report,
    AlwaysRunUpdate, ComponentFlags, ConfigKey, PlaytestGoal, PlaytestMode, SaveSummary, ScriptErrorEntry,
    bulk_select, evaluate_game, health_check, tile_variety, BulkCandidate, BulkFilter, GameCensus,
    count_non_empty_tiles, delete_tile_layer, set_tile_layer, TileLayerData, register_terrain_type,
    terrain_columns, check_config_override, plan_config_overrides, ConfigOverrideEntry, ConfigOverrides,
    GravityForm, OverrideAction, OverrideValue, generate_asset_pixels, is_image_extension, import_summary,
    EntityIdIndex, restore_network_ids, script_budgets_ms, setting_u64, non_player_entities, ResetCandidate,
    path_recalc_step, particle_source, ParticleSource, saved_layers,
};

fn strings(v: &[&str]) -> Vec<String> {
    v.iter().map(|s| s.to_string()).collect()
}

fn no_components() -> ComponentFlags {
    ComponentFlags {
        player: false,
        gravity: false,
        collider: false,
        horizontal_mover: false,
        jumper: false,
        top_down_mover: false,
        health: false,
        contact_damage: false,
        trigger_zone: false,
        pickup: false,
        projectile: false,
        hitbox: false,
        moving_platform: false,
        animation_controller: false,
        path_follower: false,
        ai_behavior: false,
        particle_emitter: false,
    }
}

#[test]
fn entity_commands_use_stable_network_ids() {
    // A fresh world hands out id 1 first, and the next spawn gets 2.
    let (spawned_id, next) = allocate_network_id(1);
    assert_eq!(spawned_id, 1);
    assert_eq!(next, 2);
    let (second, after) = allocate_network_id(next);
    assert_eq!(second, 2);
    assert_eq!(after, 3);
}

#[test]
fn pool_ids_are_consecutive() {
    let (ids, next) = allocate_network_ids(10, 4);
    assert_eq!(ids, vec![10, 11, 12, 13]);
    assert_eq!(next, 14);
    let (none, same) = allocate_network_ids(7, 0);
    assert!(none.is_empty());
    assert_eq!(same, 7);
}

#[test]
fn set_level_checks_tile_count() {
    assert_eq!(check_set_level(4, 3, 12), Ok(()));
    assert_eq!(check_set_level(4, 3, 11), Err("Tile count 11 doesn't match 4x3=12".to_string()));
    assert_eq!(check_set_level(0, 5, 0), Ok(()));
    assert_eq!(check_set_level(10, 10, 0), Err("Tile count 0 doesn't match 10x10=100".to_string()));
}

#[test]
fn entity_animation_commands_set_and_get_state() {
    // The graph "test_graph" defines idle and run; the entity carries an
    // animation controller on that graph.
    assert!(check_animation_graph(2).is_ok());
    let states = strings(&["idle", "run"]);
    let r = check_animation_state(true, "run", true, "test_graph", Some(&states));
    assert_eq!(r, Ok("run".to_string()));
}

#[test]
fn animation_state_requests_are_refused_with_reasons() {
    let states = strings(&["idle", "run"]);
    assert_eq!(
        check_animation_state(false, "run", true, "g", Some(&states)),
        Err("Entity not found".to_string())
    );
    assert_eq!(
        check_animation_state(true, "   ", true, "g", Some(&states)),
        Err("Animation state cannot be empty".to_string())
    );
    assert_eq!(
        check_animation_state(true, "run", false, "g", Some(&states)),
        Err("Entity has no AnimationController".to_string())
    );
    assert_eq!(
        check_animation_state(true, " jump ", true, "hero", Some(&states)),
        Err("Animation state 'jump' not found in graph 'hero'".to_string())
    );
    assert_eq!(check_animation_state(true, " jump ", true, "hero", None), Ok("jump".to_string()));
    assert_eq!(
        check_animation_graph(0),
        Err("Animation graph must define at least one state".to_string())
    );
}

#[test]
fn upsert_sprite_sheet_registers_sheet_and_animation_graph() {
    let plan = plan_sprite_sheet("hero", 32, 32, 8, 1, &strings(&["run"]), &vec![4]).expect("sheet accepted");
    assert_eq!(plan.name, "hero");
    assert_eq!(plan.rows, 1);
    assert_eq!(plan.states, strings(&["run"]));
    assert_eq!(plan.frame_counts, vec![4]);
    assert_eq!(plan.default_state, "run");
}

#[test]
fn sprite_sheet_defaults_and_errors() {
    let plan = plan_sprite_sheet(" hero ", 16, 16, 4, 0, &strings(&["walk", " ", "attack", "idle"]), &vec![0, 3, 2, 1])
        .expect("sheet accepted");
    assert_eq!(plan.name, "hero");
    assert_eq!(plan.rows, 1);
    assert_eq!(plan.states, strings(&["walk", "attack", "idle"]));
    assert_eq!(plan.frame_counts, vec![1, 2, 1]);
    assert_eq!(plan.default_state, "idle");
    let plan = plan_sprite_sheet("hero", 16, 16, 4, 2, &strings(&["walk", "attack"]), &vec![1, 1]).expect("ok");
    assert_eq!(plan.default_state, "attack");
    assert_eq!(plan.rows, 2);
    assert_eq!(
        plan_sprite_sheet("  ", 16, 16, 4, 1, &strings(&["run"]), &vec![1]).err(),
        Some("Sprite sheet name cannot be empty".to_string())
    );
    assert_eq!(
        plan_sprite_sheet("hero", 16, 0, 4, 1, &strings(&["run"]), &vec![1]).err(),
        Some("Sprite sheet frame_width/frame_height/columns must be > 0".to_string())
    );
    assert_eq!(
        plan_sprite_sheet("hero", 16, 16, 4, 1, &strings(&[" "]), &vec![1]).err(),
        Some("Sprite sheet must include at least one named animation".to_string())
    );
}

#[test]
fn script_load_bookkeeping() {
    let entry = |name: &str, msg: &str| ScriptErrorEntry {
        script_name: name.to_string(),
        entity_id: Some(3),
        error_message: msg.to_string(),
        frame: 9,
    };
    let mut errors = vec![entry("a", "old a"), entry("b", "old b"), entry("a", "older a")];
    let r = record_script_load(&mut errors, "a", Some(true), &Ok(()));
    assert!(matches!(r, AlwaysRunUpdate::Add));
    assert_eq!(errors.len(), 1);
    assert_eq!(errors[0].script_name, "b");

    let r = record_script_load(&mut errors, "c", None, &Ok(()));
    assert!(matches!(r, AlwaysRunUpdate::Remove));
    assert_eq!(errors.len(), 1);

    let r = record_script_load(&mut errors, "b", Some(true), &Err("syntax error".to_string()));
    assert!(matches!(r, AlwaysRunUpdate::Unchanged));
    assert_eq!(errors.len(), 1);
    assert_eq!(errors[0].script_name, "b");
    assert_eq!(errors[0].entity_id, None);
    assert_eq!(errors[0].error_message, "Script load failed: syntax error");
    assert_eq!(errors[0].frame, 0);
}

#[test]
fn save_load_restores_network_ids_and_content_resources() {
    let plan = plan_load(&SaveSummary {
        version: 2,
        animation_graphs: 1,
        sprite_sheets: 1,
        particle_presets: 1,
        next_network_id: 10,
    });
    assert!(plan.restore_animation_graphs);
    assert!(plan.restore_sprite_sheets);
    assert!(plan.restore_particle_presets);
    assert_eq!(plan.next_network_id, 10);
}

#[test]
fn legacy_saves_keep_libraries_they_do_not_carry() {
    let plan = plan_load(&SaveSummary {
        version: 1,
        animation_graphs: 0,
        sprite_sheets: 2,
        particle_presets: 0,
        next_network_id: 0,
    });
    assert!(!plan.restore_animation_graphs);
    assert!(plan.restore_sprite_sheets);
    assert!(!plan.restore_particle_presets);
    assert_eq!(plan.next_network_id, 1);
}

#[test]
fn script_import_report_lists_failures_sorted() {
    let submitted = strings(&["zeta", "alpha", "mid", "beta"]);
    let loaded = strings(&["mid", "other"]);
    let r = script_import_report(&submitted, &loaded);
    assert_eq!(r.scripts_failed, strings(&["alpha", "beta", "zeta"]));
    assert_eq!(r.scripts_loaded, 1);
    assert_eq!(r.warnings, strings(&["3 script(s) failed to load: alpha, beta, zeta"]));
    let ok = script_import_report(&strings(&["a"]), &strings(&["a"]));
    assert!(ok.scripts_failed.is_empty());
    assert_eq!(ok.scripts_loaded, 1);
    assert!(ok.warnings.is_empty());
}

#[test]
fn entity_info_lists_components_in_order_and_sorts_tags() {
    let mut f = no_components();
    f.particle_emitter = true;
    f.player = true;
    f.health = true;
    f.collider = true;
    let info = entity_info_summary(&f, &strings(&["zombie", "enemy", "boss"]));
    assert_eq!(info.components, strings(&["Player", "Collider", "Health", "ParticleEmitter"]));
    assert_eq!(info.tags, strings(&["boss", "enemy", "zombie"]));
    let empty = entity_info_summary(&no_components(), &vec![]);
    assert!(empty.components.is_empty());
    assert!(empty.tags.is_empty());
}

#[test]
fn play_audio_request_checks_names_in_order() {
    let mut reg = AudioRegistry::new();
    reg.sfx = strings(&["jump"]);
    reg.music = strings(&["theme"]);
    assert_eq!(play_audio_request(&mut reg, None, None), Err("Request must include sfx or music".to_string()));
    assert_eq!(play_audio_request(&mut reg, Some("boom"), Some("theme")), Err("Unknown sfx: boom".to_string()));
    assert_eq!(reg.current_music, None);
    assert_eq!(play_audio_request(&mut reg, Some("jump"), Some("nope")), Err("Unknown music track: nope".to_string()));
    assert_eq!(play_audio_request(&mut reg, Some("jump"), Some("theme")), Ok(()));
    assert_eq!(reg.current_music, Some("theme".to_string()));
    assert_eq!(play_audio_request(&mut reg, Some("jump"), None), Ok(()));
}

#[test]
fn playtest_plan_picks_mode_goal_and_frames() {
    let p = plan_playtest(600, None, None, true, false).expect("ok");
    assert_eq!(p.frames, 600);
    assert!(matches!(p.mode, PlaytestMode::Platformer));
    assert!(matches!(p.goal, PlaytestGoal::Survive));
    let p = plan_playtest(10_000, Some("top_down"), Some("reach_goal"), true, false).expect("ok");
    assert_eq!(p.frames, 3600);
    assert!(matches!(p.mode, PlaytestMode::TopDown));
    assert!(matches!(p.goal, PlaytestGoal::ReachGoal));
    let p = plan_playtest(5, Some("sideways"), Some("explore"), false, false).expect("ok");
    assert!(matches!(p.mode, PlaytestMode::TopDown));
    assert!(matches!(p.goal, PlaytestGoal::Explore));
    assert_eq!(
        plan_playtest(5, None, None, false, true).err(),
        Some("A playtest is already running".to_string())
    );
}

#[test]
fn simulation_plan_clamps_and_refuses_second_live_run() {
    let p = plan_simulation(5000, None, false, true).expect("headless runs are not refused");
    assert_eq!(p.frames, 3600);
    assert_eq!(p.record_interval, 10);
    let p = plan_simulation(30, Some(0), true, false).expect("ok");
    assert_eq!(p.frames, 30);
    assert_eq!(p.record_interval, 1);
    assert_eq!(
        plan_simulation(30, Some(5), true, true).err(),
        Some("A real simulation is already running".to_string())
    );
}

#[test]
fn asset_and_screen_names() {
    assert_eq!(asset_file_name(" hero "), Ok("hero.png".to_string()));
    assert_eq!(asset_file_name("tiles.png"), Ok("tiles.png".to_string()));
    assert_eq!(asset_file_name("  "), Err("Asset name cannot be empty".to_string()));
    assert_eq!(require_name("hud", "Screen"), Ok(()));
    assert_eq!(require_name(" ", "Screen"), Err("Screen name cannot be empty".to_string()));
    assert_eq!(require_name("", "Conversation"), Err("Conversation name cannot be empty".to_string()));
}

fn override_entry(key: &str, value: OverrideValue) -> ConfigOverrideEntry {
    ConfigOverrideEntry { key: key.to_string(), value, tile_types_error: None }
}

#[test]
fn apply_config_overrides_accepts_gravity_vec() {
    let overrides = ConfigOverrides::Entries(vec![
        override_entry("gravity", OverrideValue::Array(vec![true, true])),
        override_entry("move_speed", OverrideValue::Number { unsigned: true }),
        override_entry("tile_size", OverrideValue::Number { unsigned: true }),
    ]);
    let (actions, result) = plan_config_overrides(&overrides);
    assert_eq!(result, Ok(()));
    assert_eq!(actions.len(), 3);
    assert!(matches!(actions[0], OverrideAction::Gravity(GravityForm::Pair)));
    assert!(matches!(actions[1], OverrideAction::Number(ConfigKey::MoveSpeed)));
    assert!(matches!(actions[2], OverrideAction::Number(ConfigKey::TileSize)));
}

#[test]
fn apply_config_overrides_rejects_unknown_key() {
    let (_, result) = plan_config_overrides(&ConfigOverrides::Entries(vec![override_entry("unknown", OverrideValue::Number { unsigned: true })]));
    let err = result.expect_err("unknown keys should fail");
    assert!(err.contains("Unsupported config override key"));
    let err = config_override_key("unknown").expect_err("unknown keys should fail");
    assert!(err.contains("Unsupported config override key"));
}

#[test]
fn config_override_values_are_checked() {
    let check = |key: &str, v: OverrideValue| check_config_override(key, &v, None).err();
    assert_eq!(check("gravity", OverrideValue::Array(vec![true])), Some("gravity array must have exactly 2 elements".to_string()));
    assert_eq!(check("gravity", OverrideValue::Array(vec![true, false])), Some("gravity[1] must be a number".to_string()));
    assert_eq!(check("gravity", OverrideValue::Object { x_is_number: false, y_is_number: true }), Some("gravity.x must be a number".to_string()));
    assert_eq!(check("gravity", OverrideValue::Other), Some("gravity must be a number, [x,y], or {x,y}".to_string()));
    assert_eq!(check("move_speed", OverrideValue::Other), Some("move_speed must be a number".to_string()));
    assert_eq!(check("coyote_frames", OverrideValue::Number { unsigned: false }), Some("coyote_frames must be an unsigned integer".to_string()));
    assert!(check("coyote_frames", OverrideValue::Number { unsigned: true }).is_none());
    assert_eq!(
        check_config_override("tile_types", &OverrideValue::Other, Some("expected a sequence")).err(),
        Some("Invalid tile_types override: expected a sequence".to_string())
    );
    let (none, ok) = plan_config_overrides(&ConfigOverrides::Null);
    assert!(none.is_empty());
    assert_eq!(ok, Ok(()));
    let (_, err) = plan_config_overrides(&ConfigOverrides::NotObject);
    assert_eq!(err, Err("config_overrides must be an object".to_string()));
    let (partial, err) = plan_config_overrides(&ConfigOverrides::Entries(vec![
        override_entry("move_speed", OverrideValue::Number { unsigned: false }),
        override_entry("jump_velocity", OverrideValue::Other),
        override_entry("tile_size", OverrideValue::Number { unsigned: false }),
    ]));
    assert_eq!(partial.len(), 1);
    assert_eq!(err, Err("jump_velocity must be a number".to_string()));
}

#[test]
fn config_override_keys_name_their_fields() {
    assert!(matches!(config_override_key("gravity"), Ok(ConfigKey::Gravity)));
    assert!(matches!(config_override_key("move_speed"), Ok(ConfigKey::MoveSpeed)));
    assert!(matches!(config_override_key("tile_types"), Ok(ConfigKey::TileTypes)));
    assert_eq!(config_override_key("Gravity").err(), Some("Unsupported config override key: Gravity".to_string()));
}

fn candidate(nid: Option<u64>, tags: &[&str], alive: Option<bool>, script: bool, state: Option<&str>) -> BulkCandidate {
    BulkCandidate {
        network_id: nid,
        tags: strings(tags),
        alive,
        has_script: script,
        flags: no_components(),
        machine_state: state.map(|s| s.to_string()),
    }
}

fn no_bulk_filter() -> BulkFilter {
    BulkFilter { ids: None, tag: None, alive: None, has_script: None, component: None, entity_state: None }
}

#[test]
fn bulk_select_uses_ids_or_criteria() {
    let mut hitter = candidate(Some(3), &["enemy"], None, true, Some("patrol"));
    hitter.flags.hitbox = true;
    let entities = vec![
        candidate(Some(1), &["enemy"], Some(true), false, None),
        candidate(None, &["enemy"], Some(true), false, None),
        candidate(Some(2), &["pickup"], Some(false), false, None),
        hitter,
    ];
    let known = vec![1, 2, 3];
    let mut f = no_bulk_filter();
    f.ids = Some(vec![3, 9, 1]);
    f.tag = Some("pickup".to_string());
    assert_eq!(bulk_select(&f, &known, &entities), vec![3, 1]);
    assert_eq!(bulk_select(&no_bulk_filter(), &known, &entities), vec![1, 2, 3]);
    let mut f = no_bulk_filter();
    f.tag = Some("enemy".to_string());
    f.alive = Some(true);
    assert_eq!(bulk_select(&f, &known, &entities), vec![1, 3]);
    let mut f = no_bulk_filter();
    f.component = Some("Hitbox".to_string());
    assert_eq!(bulk_select(&f, &known, &entities), vec![3]);
    let mut f = no_bulk_filter();
    f.component = Some("Player".to_string());
    assert!(bulk_select(&f, &known, &entities).is_empty());
    let mut f = no_bulk_filter();
    f.entity_state = Some("patrol".to_string());
    f.has_script = Some(true);
    assert_eq!(bulk_select(&f, &known, &entities), vec![3]);
}

#[test]
fn tile_variety_counts_distinct_non_empty_tiles() {
    assert_eq!(tile_variety(&vec![0, 1, 1, 2, 0, 7, 255]), 4);
    assert_eq!(tile_variety(&vec![0, 0]), 0);
    assert_eq!(tile_variety(&vec![]), 0);
}

#[test]
fn evaluate_game_grades_and_lists_issues() {
    let census = GameCensus {
        has_player: true,
        has_enemies: true,
        has_scripts: true,
        script_errors: 0,
        entity_count: 5,
        game_vars_count: 2,
        has_goal: true,
    };
    let e = evaluate_game(&census, &vec![1, 2, 0]);
    assert_eq!(e.tile_variety, 2);
    assert!(e.issues.is_empty());
    assert_eq!(e.overall, "good");
    let e = evaluate_game(&census, &vec![1, 1]);
    assert_eq!(e.overall, "okay");
    let bad = GameCensus { has_player: false, has_enemies: false, script_errors: 3, has_goal: false, ..census };
    let e = evaluate_game(&bad, &vec![]);
    assert_eq!(e.issues, strings(&["No player entity", "No enemy entities", "3 script errors", "No goal tile set"]));
    assert_eq!(e.overall, "poor");
    let fair = GameCensus { entity_count: 2, ..census };
    assert_eq!(evaluate_game(&fair, &vec![1, 2]).overall, "fair");
}

#[test]
fn health_check_reports_status() {
    let h = health_check(true, 0, 10, 10, 100);
    assert!(h.tilemap_set);
    assert!(h.issues.is_empty());
    assert_eq!(h.status, "healthy");
    let h = health_check(true, 0, 10, 0, 0);
    assert_eq!(h.issues, strings(&["No tilemap loaded"]));
    assert_eq!(h.status, "warning");
    let h = health_check(false, 2, 4, 4, 16);
    assert_eq!(h.issues, strings(&["No player entity", "2 script error(s)"]));
    assert_eq!(h.status, "unhealthy");
}

fn layer(name: &str, tiles: Vec<u8>) -> TileLayerData {
    TileLayerData { name: name.to_string(), tiles }
}

#[test]
fn tile_layers_are_upserted_by_name_and_checked_for_size() {
    let mut layers = vec![layer("deco", vec![0, 1, 0, 0])];
    assert_eq!(set_tile_layer(&mut layers, 2, 2, "fg".to_string(), vec![1, 1, 0, 2]), Ok(1));
    assert_eq!(layers.len(), 2);
    assert_eq!(set_tile_layer(&mut layers, 2, 2, "deco".to_string(), vec![3, 3, 3, 3]), Ok(0));
    assert_eq!(layers[0].tiles, vec![3, 3, 3, 3]);
    assert_eq!(layers.len(), 2);
    assert_eq!(
        set_tile_layer(&mut layers, 2, 2, "bad".to_string(), vec![1]),
        Err("Layer tiles length 1 doesn't match tilemap 2x2 (expected 4)".to_string())
    );
    assert_eq!(layers.len(), 2);
    assert_eq!(count_non_empty_tiles(&layers[1].tiles), 3);
}

#[test]
fn tile_layers_are_deleted_by_name() {
    let mut layers = vec![layer("a", vec![]), layer("b", vec![1]), layer("a", vec![2])];
    assert_eq!(delete_tile_layer(&mut layers, "a"), Ok(()));
    assert_eq!(layers.len(), 1);
    assert_eq!(layers[0].name, "b");
    assert_eq!(delete_tile_layer(&mut layers, "zz"), Err("Layer 'zz' not found".to_string()));
    assert_eq!(layers.len(), 1);
}

#[test]
fn terrain_registration_grows_tile_types() {
    let mut names = strings(&["empty", "solid"]);
    register_terrain_type(&mut names, 4, "grass");
    assert_eq!(names, strings(&["empty", "solid", "auto_2", "auto_3", "grass"]));
    register_terrain_type(&mut names, 1, "stone");
    assert_eq!(names, strings(&["empty", "stone", "auto_2", "auto_3", "grass"]));
    assert_eq!(terrain_columns(true, None), 13);
    assert_eq!(terrain_columns(true, Some(20)), 20);
    assert_eq!(terrain_columns(false, Some(20)), 1);
}

#[test]
fn generated_assets_fill_colour_and_mark_the_label() {
    let plain = generate_asset_pixels(0, 1000, (10, 20, 30), None);
    assert_eq!((plain.width, plain.height), (1, 512));
    assert_eq!(plain.rgba.len(), 512 * 4);
    assert_eq!(&plain.rgba[0..4], &[10, 20, 30, 255]);
    let a = generate_asset_pixels(8, 8, (10, 20, 30), Some(1));
    assert_eq!(a.rgba.len(), 8 * 8 * 4);
    let px = |x: usize, y: usize| a.rgba[(y * 8 + x) * 4..(y * 8 + x) * 4 + 4].to_vec();
    assert_eq!(px(2, 2), vec![245, 235, 225, 255]);
    assert_eq!(px(5, 5), vec![245, 235, 225, 255]);
    assert_eq!(px(1, 2), vec![10, 20, 30, 255]);
    assert_eq!(px(6, 5), vec![10, 20, 30, 255]);
    assert_eq!(px(2, 6), vec![10, 20, 30, 255]);
    assert_eq!(px(2, 1), vec![10, 20, 30, 255]);
    let empty_label = generate_asset_pixels(8, 8, (10, 20, 30), Some(0));
    assert!(empty_label.rgba.chunks(4).all(|p| p == [10, 20, 30, 255]));
    let small = generate_asset_pixels(3, 2, (0, 0, 0), Some(5));
    assert!(small.rgba.chunks(4).all(|p| p == [255, 255, 255, 255]));
}

#[test]
fn image_extensions_ignore_letter_case() {
    assert!(is_image_extension("png"));
    assert!(is_image_extension("JPEG"));
    assert!(is_image_extension("Gif"));
    assert!(!is_image_extension("txt"));
    assert!(!is_image_extension(""));
}

#[test]
fn import_summary_reports_counts_and_failures() {
    let saved = SaveSummary { version: 2, animation_graphs: 3, sprite_sheets: 1, particle_presets: 0, next_network_id: 5 };
    let r = import_summary(&saved, 4, &strings(&["a", "b"]), &strings(&["a"]));
    assert_eq!(r.entities_spawned, 4);
    assert!(r.config_applied && r.tilemap_applied);
    assert_eq!(r.animation_graphs, 3);
    assert_eq!(r.sprite_sheets, 1);
    assert_eq!(r.scripts_loaded, 1);
    assert_eq!(r.scripts_failed, strings(&["b"]));
    assert_eq!(r.warnings, strings(&["1 script(s) failed to load: b"]));
}

#[test]
fn entity_id_index_tracks_spawns_and_deletes() {
    let mut index = EntityIdIndex::new();
    assert_eq!(index.get(1), None);
    let (id, next) = index.register_spawn(1, 100);
    assert_eq!((id, next), (1, 2));
    assert_eq!(index.get(1), Some(100));
    index.insert(7, 100);
    index.insert(8, 200);
    index.insert(8, 300);
    assert_eq!(index.get(8), Some(300));
    assert_eq!(index.delete_entity(7), Ok(100));
    assert_eq!(index.get(1), None);
    assert_eq!(index.get(7), None);
    assert_eq!(index.get(8), Some(300));
    assert_eq!(index.delete_entity(7), Err("Entity not found".to_string()));
    index.remove_entity(300);
    assert_eq!(index.get(8), None);
}

#[test]
fn restored_ids_push_the_counter_past_them() {
    // A save with counter 10 and one entity saved as 77: the next spawn is 78.
    let (ids, next) = restore_network_ids(10, &vec![Some(77)]);
    assert_eq!(ids, vec![77]);
    assert_eq!(next, 78);
    let (ids, next) = restore_network_ids(5, &vec![None, Some(3), None, Some(9)]);
    assert_eq!(ids, vec![5, 3, 6, 9]);
    assert_eq!(next, 10);
}

#[test]
fn script_budget_settings_default_to_one_and_five() {
    assert_eq!(script_budgets_ms(None, None), (1, 5));
    assert_eq!(script_budgets_ms(Some(" 4 "), Some("x")), (4, 5));
    assert_eq!(script_budgets_ms(Some("-1"), Some("12")), (1, 12));
    assert_eq!(setting_u64(Some("+8"), 3), 8);
}

#[test]
fn reset_despawns_non_players_only() {
    let es = vec![
        ResetCandidate { entity: 4, is_player: false },
        ResetCandidate { entity: 5, is_player: true },
        ResetCandidate { entity: 6, is_player: false },
    ];
    assert_eq!(non_player_entities(&es), vec![4, 6]);
}

#[test]
fn path_followers_recalculate_on_schedule() {
    assert_eq!(path_recalc_step(false, 3, false, 10), (false, 2));
    assert_eq!(path_recalc_step(false, 0, false, 10), (true, 10));
    assert_eq!(path_recalc_step(true, 3, false, 0), (true, 1));
    assert_eq!(path_recalc_step(false, 3, true, 7), (true, 7));
}

#[test]
fn particle_requests_pick_their_source() {
    let known = strings(&["burst"]);
    assert_eq!(particle_source(false, true, None, &known).err(), Some("Entity not found".to_string()));
    assert!(matches!(particle_source(true, true, Some("burst"), &known), Ok(ParticleSource::Definition)));
    assert!(matches!(particle_source(true, false, Some(" burst "), &known), Ok(ParticleSource::Preset(ref n)) if n == "burst"));
    assert!(matches!(particle_source(true, false, Some("smoke"), &known), Ok(ParticleSource::PresetOnly(ref n)) if n == "smoke"));
    assert_eq!(
        particle_source(true, false, Some("  "), &known).err(),
        Some("Particle preset name cannot be empty".to_string())
    );
    assert_eq!(
        particle_source(true, false, None, &known).err(),
        Some("Provide either preset or emitter definition for particles".to_string())
    );
}

#[test]
fn saving_leaves_default_layers_out() {
    let s = saved_layers(Some(0), Some((1, 0xFFFF)), None);
    assert_eq!(s.render_layer, None);
    assert_eq!(s.collision, None);
    assert!(s.alive);
    let s = saved_layers(Some(-2), Some((1, 0x00FF)), Some(false));
    assert_eq!(s.render_layer, Some(-2));
    assert_eq!(s.collision, Some((1, 0x00FF)));
    assert!(!s.alive);
    assert_eq!(saved_layers(None, Some((4, 0xFFFF)), Some(true)).collision, Some((4, 0xFFFF)));
}
