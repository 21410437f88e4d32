use axiom_core::docs_page::get_docs_html;
use axiom_core::examples::{builtin_examples, centi_string, docs_examples, example_doc_rows};

const REQUIRED: [&str; 5] = [
    "platformer_campaign",
    "top_down_rpg_dungeon",
    "roguelike_floor_run",
    "bullet_hell_arena",
    "puzzle_platformer_trials",
];

#[test]
fn builtin_examples_have_unique_names() {
    let examples = builtin_examples();
    let mut names = std::collections::HashSet::new();
    for ex in examples {
        assert!(!ex.name.trim().is_empty());
        assert!(names.insert(ex.name), "duplicate example name: {}", ex.name);
        assert!(!ex.template.trim().is_empty());
    }
}

#[test]
fn builtin_examples_cover_phase13_targets() {
    let examples = builtin_examples();
    assert!(examples.len() >= 5, "expected at least 5 builtin examples, got {}", examples.len());
    let names: std::collections::HashSet<&str> = examples.iter().map(|e| e.name).collect();
    for required in REQUIRED {
        assert!(names.contains(required), "missing builtin example: {required}");
    }
}

#[test]
fn docs_examples_covers_builtin_example_set() {
    let items = docs_examples();
    assert!(items.len() >= 5);
    let names: std::collections::BTreeSet<&str> = items.iter().map(|e| e.name).collect();
    for required in REQUIRED {
        assert!(names.contains(required), "missing docs example: {required}");
    }
}

#[test]
fn docs_examples_are_sorted_by_name() {
    let names: Vec<&str> = docs_examples().iter().map(|e| e.name).collect();
    let mut sorted = names.clone();
    sorted.sort();
    assert_eq!(names, sorted);
    let mut defined: Vec<&str> = builtin_examples().iter().map(|e| e.name).collect();
    defined.sort();
    assert_eq!(names, defined);
}

#[test]
fn difficulty_is_written_with_two_decimals() {
    for (centi, text) in [(30u32, "0.30"), (40, "0.40"), (5, "0.05"), (0, "0.00"), (175, "1.75"), (1000, "10.00")] {
        assert_eq!(centi_string(centi), text);
        assert_eq!(format!("{:.2}", centi as f32 / 100.0), text);
    }
}

#[test]
fn docs_page_rows_come_from_the_examples() {
    let rows = example_doc_rows();
    assert_eq!(rows.len(), 5);
    assert_eq!(rows[0].name, "bullet_hell_arena");
    assert_eq!(rows[0].difficulty, "0.75");
    assert_eq!(rows[0].seed, 1337);
    let html = get_docs_html(&rows);
    assert!(html.contains(
        "<tr><td><code>puzzle_platformer_trials</code></td><td>puzzle_platformer</td>\
         <td><code>puzzle_platformer</code></td><td>0.20</td><td>6060</td>\
         <td>reachable, item_reachability, ability_gating, difficulty_range:0.25:0.95</td></tr>"
    ));
}

#[test]
fn builtin_examples_are_consistent_with_docs_and_config_keys() {
    let templates = axiom_core::docs::docs_templates();
    let presets = axiom_core::docs::docs_presets();
    for ex in builtin_examples() {
        assert!(templates.contains(&ex.template), "{}", ex.name);
        assert!(ex.difficulty_centi <= 100, "{}", ex.name);
        for e in &ex.extra_entities {
            assert!(presets.contains(&e.preset), "{}", ex.name);
        }
        for k in &ex.override_keys {
            assert!(axiom_core::commands::config_override_key(k).is_ok(), "{} overrides {}", ex.name, k);
        }
    }
}

#[test]
fn builtin_examples_carry_extra_entities_and_scripts() {
    let ex = builtin_examples();
    let campaign = &ex[0];
    assert_eq!(campaign.override_keys, vec!["move_speed"]);
    let placed: Vec<(&str, u32, u32)> = campaign.extra_entities.iter().map(|e| (e.preset, e.x, e.y)).collect();
    assert_eq!(placed, vec![("boss", 1888, 24), ("health_pickup", 1248, 80)]);
    assert!(campaign.extra_scripts.is_empty());
    let roguelike = &ex[2];
    assert_eq!(roguelike.name, "roguelike_floor_run");
    assert!(roguelike.extra_entities.is_empty());
    assert_eq!(roguelike.extra_scripts.len(), 1);
    let s = &roguelike.extra_scripts[0];
    assert_eq!(s.name, "roguelike_score_tick");
    assert!(s.global);
    assert!(s.source.starts_with("function update(world, dt)"));
    assert!(s.source.ends_with("end"));
    assert_eq!(roguelike.override_keys, vec!["gravity", "jump_velocity", "move_speed"]);
}
