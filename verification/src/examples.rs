//! The built-in example recipes as the API lists and documents them.
use vstd::prelude::*;
use crate::commands::{config_key_index, config_keys_spec, key_named, lemma_config_keys_distinct, override_check_spec, ConfigKey, OverrideValue};
use crate::docs::{presets_spec, str_views, templates_spec};
use crate::docs_page::{strs, ExampleDocRow};
use crate::order::views;
use crate::text::{decimal_seq, decimal_string, owned, push_char};

verus! {

/// An entity a recipe adds to its generated level: a preset, at a position in
/// whole pixels.
pub struct ExamplePlacement {
    pub preset: &'static str,
    pub x: u32,
    pub y: u32,
}

/// A script a recipe installs.
pub struct ExampleScript {
    pub name: &'static str,
    pub source: &'static str,
    pub global: bool,
}

/// What the engine knows of a built-in example recipe.  The difficulty is in
/// hundredths (30 stands for 0.30); `override_keys` are the configuration
/// fields the recipe overrides, in the order it writes them; every one of
/// them is given a number.
pub struct ExampleSummary {
    pub name: &'static str,
    pub description: &'static str,
    pub genre: &'static str,
    pub template: &'static str,
    pub difficulty_centi: u32,
    pub seed: u64,
    pub constraints: Vec<&'static str>,
    pub override_keys: Vec<&'static str>,
    pub extra_entities: Vec<ExamplePlacement>,
    pub extra_scripts: Vec<ExampleScript>,
}

/// An example summary as text.
#[verifier::ext_equal]
pub ghost struct ExampleSpec {
    pub name: Seq<char>,
    pub description: Seq<char>,
    pub genre: Seq<char>,
    pub template: Seq<char>,
    pub difficulty_centi: u32,
    pub seed: u64,
    pub constraints: Seq<Seq<char>>,
    pub override_keys: Seq<Seq<char>>,
    /// Preset, x and y of each extra entity.
    pub extra_entities: Seq<(Seq<char>, u32, u32)>,
    /// Name, source and globality of each extra script.
    pub extra_scripts: Seq<(Seq<char>, Seq<char>, bool)>,
}

pub open spec fn placements_view(v: Seq<ExamplePlacement>) -> Seq<(Seq<char>, u32, u32)> {
    v.map_values(|p: ExamplePlacement| (p.preset@, p.x, p.y))
}

pub open spec fn scripts_view(v: Seq<ExampleScript>) -> Seq<(Seq<char>, Seq<char>, bool)> {
    v.map_values(|s: ExampleScript| (s.name@, s.source@, s.global))
}

pub open spec fn example_view(e: ExampleSummary) -> ExampleSpec {
    ExampleSpec {
        name: e.name@,
        description: e.description@,
        genre: e.genre@,
        template: e.template@,
        difficulty_centi: e.difficulty_centi,
        seed: e.seed,
        constraints: str_views(e.constraints@),
        override_keys: str_views(e.override_keys@),
        extra_entities: placements_view(e.extra_entities@),
        extra_scripts: scripts_view(e.extra_scripts@),
    }
}

pub open spec fn examples_view(v: Seq<ExampleSummary>) -> Seq<ExampleSpec> {
    v.map_values(|e: ExampleSummary| example_view(e))
}

/// The source of the roguelike recipe's score script.
pub const SCORE_TICK_SOURCE: &'static str = "function update(world, dt)\n    local score = world.get_var(\"score\") or 0\n    world.set_var(\"score\", score + 1)\nend";

pub open spec fn platformer_campaign_spec() -> ExampleSpec {
    ExampleSpec {
        name: "platformer_campaign"@,
        description: "Mario-like starter with patrol enemies, pickups, and a boss gate."@,
        genre: "platformer"@,
        template: "side_scroller"@,
        difficulty_centi: 30,
        seed: 1001,
        constraints: seq!["reachable"@, "enemy_fairness"@, "item_reachability"@],
        override_keys: seq!["move_speed"@],
        extra_entities: seq![("boss"@, 1888u32, 24u32), ("health_pickup"@, 1248u32, 80u32)],
        extra_scripts: seq![],
    }
}

pub open spec fn top_down_rpg_dungeon_spec() -> ExampleSpec {
    ExampleSpec {
        name: "top_down_rpg_dungeon"@,
        description: "Zelda-like dungeon recipe with chasers, guards, and key-like pickups."@,
        genre: "top_down_rpg"@,
        template: "top_down_dungeon"@,
        difficulty_centi: 40,
        seed: 1,
        constraints: seq!["top_down_reachable"@, "enemy_fairness"@, "item_reachability"@, "no_dead_ends:0.45"@],
        override_keys: seq!["gravity"@, "jump_velocity"@, "move_speed"@],
        extra_entities: seq![("guard_enemy"@, 352u32, 288u32), ("health_pickup"@, 192u32, 176u32)],
        extra_scripts: seq![],
    }
}

pub open spec fn roguelike_floor_run_spec() -> ExampleSpec {
    ExampleSpec {
        name: "roguelike_floor_run"@,
        description: "Procedural floor with escalating density and recovery pickups."@,
        genre: "roguelike"@,
        template: "roguelike_floor"@,
        difficulty_centi: 65,
        seed: 2,
        constraints: seq!["top_down_reachable"@, "enemy_fairness"@, "pacing"@],
        override_keys: seq!["gravity"@, "jump_velocity"@, "move_speed"@],
        extra_entities: seq![],
        extra_scripts: seq![("roguelike_score_tick"@, SCORE_TICK_SOURCE@, true)],
    }
}

pub open spec fn bullet_hell_arena_spec() -> ExampleSpec {
    ExampleSpec {
        name: "bullet_hell_arena"@,
        description: "Arena-shooter style recipe with flying swarms and fixed turrets."@,
        genre: "bullet_hell"@,
        template: "arena_waves"@,
        difficulty_centi: 75,
        seed: 1337,
        constraints: seq!["top_down_reachable"@, "enemy_fairness"@],
        override_keys: seq!["gravity"@, "jump_velocity"@, "move_speed"@],
        extra_entities: seq![("turret"@, 480u32, 112u32), ("flying_enemy"@, 672u32, 192u32)],
        extra_scripts: seq![],
    }
}

pub open spec fn puzzle_platformer_trials_spec() -> ExampleSpec {
    ExampleSpec {
        name: "puzzle_platformer_trials"@,
        description: "Puzzle platformer recipe with simple ability-gating metadata."@,
        genre: "puzzle_platformer"@,
        template: "puzzle_platformer"@,
        difficulty_centi: 20,
        seed: 6060,
        constraints: seq!["reachable"@, "item_reachability"@, "ability_gating"@, "difficulty_range:0.25:0.95"@],
        override_keys: seq!["move_speed"@],
        extra_entities: seq![],
        extra_scripts: seq![],
    }
}

/// The built-in examples, in the order the engine defines them.
pub open spec fn builtin_examples_spec() -> Seq<ExampleSpec> {
    seq![
        platformer_campaign_spec(),
        top_down_rpg_dungeon_spec(),
        roguelike_floor_run_spec(),
        bullet_hell_arena_spec(),
        puzzle_platformer_trials_spec(),
    ]
}

/// The built-in examples as the documentation lists them: by name.
pub open spec fn docs_examples_spec() -> Seq<ExampleSpec> {
    seq![
        bullet_hell_arena_spec(),
        platformer_campaign_spec(),
        puzzle_platformer_trials_spec(),
        roguelike_floor_run_spec(),
        top_down_rpg_dungeon_spec(),
    ]
}

fn platformer_campaign() -> (r: ExampleSummary)
    ensures
        example_view(r) == platformer_campaign_spec(),
{
    let mut entities: Vec<ExamplePlacement> = Vec::new();
    entities.push(ExamplePlacement { preset: "boss", x: 1888, y: 24 });
    entities.push(ExamplePlacement { preset: "health_pickup", x: 1248, y: 80 });
    let mut scripts: Vec<ExampleScript> = Vec::new();
    let r = ExampleSummary {
        name: "platformer_campaign",
        description: "Mario-like starter with patrol enemies, pickups, and a boss gate.",
        genre: "platformer",
        template: "side_scroller",
        difficulty_centi: 30,
        seed: 1001,
        constraints: strs(&["reachable", "enemy_fairness", "item_reachability"]),
        override_keys: strs(&["move_speed"]),
        extra_entities: entities,
        extra_scripts: scripts,
    };
    assert(example_view(r) =~~= platformer_campaign_spec());
    r
}

fn top_down_rpg_dungeon() -> (r: ExampleSummary)
    ensures
        example_view(r) == top_down_rpg_dungeon_spec(),
{
    let mut entities: Vec<ExamplePlacement> = Vec::new();
    entities.push(ExamplePlacement { preset: "guard_enemy", x: 352, y: 288 });
    entities.push(ExamplePlacement { preset: "health_pickup", x: 192, y: 176 });
    let mut scripts: Vec<ExampleScript> = Vec::new();
    let r = ExampleSummary {
        name: "top_down_rpg_dungeon",
        description: "Zelda-like dungeon recipe with chasers, guards, and key-like pickups.",
        genre: "top_down_rpg",
        template: "top_down_dungeon",
        difficulty_centi: 40,
        seed: 1,
        constraints: strs(&["top_down_reachable", "enemy_fairness", "item_reachability", "no_dead_ends:0.45"]),
        override_keys: strs(&["gravity", "jump_velocity", "move_speed"]),
        extra_entities: entities,
        extra_scripts: scripts,
    };
    assert(example_view(r) =~~= top_down_rpg_dungeon_spec());
    r
}

fn roguelike_floor_run() -> (r: ExampleSummary)
    ensures
        example_view(r) == roguelike_floor_run_spec(),
{
    let mut entities: Vec<ExamplePlacement> = Vec::new();
    let mut scripts: Vec<ExampleScript> = Vec::new();
    scripts.push(ExampleScript { name: "roguelike_score_tick", source: SCORE_TICK_SOURCE, global: true });
    let r = ExampleSummary {
        name: "roguelike_floor_run",
        description: "Procedural floor with escalating density and recovery pickups.",
        genre: "roguelike",
        template: "roguelike_floor",
        difficulty_centi: 65,
        seed: 2,
        constraints: strs(&["top_down_reachable", "enemy_fairness", "pacing"]),
        override_keys: strs(&["gravity", "jump_velocity", "move_speed"]),
        extra_entities: entities,
        extra_scripts: scripts,
    };
    assert(example_view(r) =~~= roguelike_floor_run_spec());
    r
}

fn bullet_hell_arena() -> (r: ExampleSummary)
    ensures
        example_view(r) == bullet_hell_arena_spec(),
{
    let mut entities: Vec<ExamplePlacement> = Vec::new();
    entities.push(ExamplePlacement { preset: "turret", x: 480, y: 112 });
    entities.push(ExamplePlacement { preset: "flying_enemy", x: 672, y: 192 });
    let mut scripts: Vec<ExampleScript> = Vec::new();
    let r = ExampleSummary {
        name: "bullet_hell_arena",
        description: "Arena-shooter style recipe with flying swarms and fixed turrets.",
        genre: "bullet_hell",
        template: "arena_waves",
        difficulty_centi: 75,
        seed: 1337,
        constraints: strs(&["top_down_reachable", "enemy_fairness"]),
        override_keys: strs(&["gravity", "jump_velocity", "move_speed"]),
        extra_entities: entities,
        extra_scripts: scripts,
    };
    assert(example_view(r) =~~= bullet_hell_arena_spec());
    r
}

fn puzzle_platformer_trials() -> (r: ExampleSummary)
    ensures
        example_view(r) == puzzle_platformer_trials_spec(),
{
    let mut entities: Vec<ExamplePlacement> = Vec::new();
    let mut scripts: Vec<ExampleScript> = Vec::new();
    let r = ExampleSummary {
        name: "puzzle_platformer_trials",
        description: "Puzzle platformer recipe with simple ability-gating metadata.",
        genre: "puzzle_platformer",
        template: "puzzle_platformer",
        difficulty_centi: 20,
        seed: 6060,
        constraints: strs(&["reachable", "item_reachability", "ability_gating", "difficulty_range:0.25:0.95"]),
        override_keys: strs(&["move_speed"]),
        extra_entities: entities,
        extra_scripts: scripts,
    };
    assert(example_view(r) =~~= puzzle_platformer_trials_spec());
    r
}

/// The built-in example recipes, in definition order.
pub fn builtin_examples() -> (r: Vec<ExampleSummary>)
    ensures
        examples_view(r@) == builtin_examples_spec(),
{
    let mut r: Vec<ExampleSummary> = Vec::new();
    r.push(platformer_campaign());
    r.push(top_down_rpg_dungeon());
    r.push(roguelike_floor_run());
    r.push(bullet_hell_arena());
    r.push(puzzle_platformer_trials());
    assert(examples_view(r@) =~~= builtin_examples_spec());
    r
}

/// The built-in examples as the documentation lists them, by name.
pub fn docs_examples() -> (r: Vec<ExampleSummary>)
    ensures
        examples_view(r@) == docs_examples_spec(),
{
    let mut r: Vec<ExampleSummary> = Vec::new();
    r.push(bullet_hell_arena());
    r.push(platformer_campaign());
    r.push(puzzle_platformer_trials());
    r.push(roguelike_floor_run());
    r.push(top_down_rpg_dungeon());
    assert(examples_view(r@) =~~= docs_examples_spec());
    r
}

/// A recipe is consistent with what the engine documents and accepts: its
/// template is a documented template, its difficulty lies between 0 and 1,
/// each extra entity uses a documented preset, and each configuration key it
/// overrides is a supported one that takes the number it is given.
pub open spec fn example_is_consistent(e: ExampleSpec) -> bool {
    &&& templates_spec().contains(e.template)
    &&& e.difficulty_centi <= 100
    &&& forall|j: int| 0 <= j < e.extra_entities.len() ==> presets_spec().contains(#[trigger] e.extra_entities[j].0)
    &&& forall|k: int| 0 <= k < e.override_keys.len() ==> config_keys_spec().contains(#[trigger] e.override_keys[k])
    &&& forall|k: int|
        0 <= k < e.override_keys.len() ==> override_check_spec(
            #[trigger] e.override_keys[k],
            OverrideValue::Number { unsigned: false },
            None,
        ) is Ok
}

/// Every built-in example is consistent with the documented templates and
/// presets and the supported configuration keys.
pub proof fn lemma_builtin_examples_are_consistent()
    ensures
        forall|i: int| 0 <= i < builtin_examples_spec().len() ==> example_is_consistent(#[trigger] builtin_examples_spec()[i]),
{
    let t = templates_spec();
    let p = presets_spec();
    let k = config_keys_spec();
    assert(t[8] == "side_scroller"@ && t[1] == "top_down_dungeon"@ && t[5] == "roguelike_floor"@);
    assert(t[7] == "arena_waves"@ && t[6] == "puzzle_platformer"@);
    assert(p[7] == "boss"@ && p[8] == "health_pickup"@ && p[4] == "guard_enemy"@);
    assert(p[5] == "turret"@ && p[6] == "flying_enemy"@);
    assert(k[0] == "gravity"@ && k[2] == "move_speed"@ && k[3] == "jump_velocity"@);
    lemma_config_keys_distinct();
    assert(k.no_duplicates());
    let g = key_named("gravity"@);
    let m = key_named("move_speed"@);
    let j = key_named("jump_velocity"@);
    assert(k[config_key_index(ConfigKey::Gravity)] == "gravity"@);
    assert(k[config_key_index(ConfigKey::MoveSpeed)] == "move_speed"@);
    assert(k[config_key_index(ConfigKey::JumpVelocity)] == "jump_velocity"@);
    assert(k[config_key_index(g)] == "gravity"@);
    assert(k[config_key_index(m)] == "move_speed"@);
    assert(k[config_key_index(j)] == "jump_velocity"@);
    assert(config_key_index(g) == 0);
    assert(config_key_index(m) == 2);
    assert(config_key_index(j) == 3);
    assert(example_is_consistent(platformer_campaign_spec()));
    assert(example_is_consistent(top_down_rpg_dungeon_spec()));
    assert(example_is_consistent(roguelike_floor_run_spec()));
    assert(example_is_consistent(bullet_hell_arena_spec()));
    assert(example_is_consistent(puzzle_platformer_trials_spec()));
}

/// A difficulty in hundredths written with two decimals, as `{:.2}` writes
/// the fraction it stands for.
pub open spec fn centi_text(d: u32) -> Seq<char> {
    decimal_seq((d / 100) as nat) + "."@ + seq![digit_of(((d % 100) / 10) as int), digit_of((d % 10) as int)]
}

pub open spec fn digit_of(n: int) -> char {
    (('0' as u32) + n) as char
}

/// Writes a difficulty given in hundredths with two decimals.
pub fn centi_string(d: u32) -> (r: String)
    ensures
        r@ == centi_text(d),
{
    let mut s = decimal_string((d / 100) as u64);
    s.append(".");
    let tens = (d % 100) / 10;
    let ones = d % 10;
    let t = (('0' as u32) + tens) as u8 as char;
    let o = (('0' as u32) + ones) as u8 as char;
    push_char(&mut s, t);
    push_char(&mut s, o);
    s
}

/// `row` is the documentation's table row for the example `e`.
pub open spec fn row_matches(row: ExampleDocRow, e: ExampleSpec) -> bool {
    &&& row.name@ == e.name
    &&& row.genre@ == e.genre
    &&& row.template@ == e.template
    &&& row.difficulty@ == centi_text(e.difficulty_centi)
    &&& row.seed == e.seed
    &&& views(row.constraints@) == e.constraints
}

fn owned_all(v: &Vec<&'static str>) -> (r: Vec<String>)
    ensures
        views(r@) == str_views(v@),
{
    let mut r: Vec<String> = Vec::new();
    let mut i: usize = 0;
    while i < v.len()
        invariant
            i <= v@.len(),
            r@.len() == i,
            forall|j: int| 0 <= j < i ==> #[trigger] r@[j]@ == v@[j]@,
        decreases v@.len() - i,
    {
        r.push(owned(v[i]));
        i += 1;
    }
    assert(views(r@) =~= str_views(v@));
    r
}

/// The rows of the documentation's examples table, by example name.
pub fn example_doc_rows() -> (r: Vec<ExampleDocRow>)
    ensures
        r@.len() == docs_examples_spec().len(),
        forall|i: int| 0 <= i < r@.len() ==> row_matches(#[trigger] r@[i], docs_examples_spec()[i]),
{
    let ex = docs_examples();
    let mut r: Vec<ExampleDocRow> = Vec::new();
    let mut i: usize = 0;
    while i < ex.len()
        invariant
            i <= ex@.len(),
            examples_view(ex@) == docs_examples_spec(),
            r@.len() == i,
            forall|j: int| 0 <= j < i ==> row_matches(#[trigger] r@[j], docs_examples_spec()[j]),
        decreases ex@.len() - i,
    {
        let e = &ex[i];
        let row = ExampleDocRow {
            name: owned(e.name),
            genre: owned(e.genre),
            template: owned(e.template),
            difficulty: centi_string(e.difficulty_centi),
            seed: e.seed,
            constraints: owned_all(&e.constraints),
        };
        assert(examples_view(ex@)[i as int] == example_view(ex@[i as int]));
        assert(row_matches(row, docs_examples_spec()[i as int]));
        r.push(row);
        i += 1;
    }
    r
}

} // verus!
