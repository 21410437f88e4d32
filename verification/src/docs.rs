//! The API's self-description: endpoint, preset, template and constraint
//! listings, and the endpoint table of the HTML documentation page.
use vstd::prelude::*;
use crate::text::{chars_of, push_char};

verus! {

/// One documented endpoint.
pub struct EndpointDoc {
    pub method: &'static str,
    pub path: &'static str,
    pub description: &'static str,
}

/// One documented level constraint.
pub struct ConstraintDoc {
    pub name: &'static str,
    pub description: &'static str,
}

pub open spec fn str_views(v: Seq<&'static str>) -> Seq<Seq<char>> {
    v.map_values(|s: &'static str| s@)
}

pub open spec fn endpoint_views(v: Seq<EndpointDoc>) -> Seq<(Seq<char>, Seq<char>, Seq<char>)> {
    v.map_values(|e: EndpointDoc| (e.method@, e.path@, e.description@))
}

pub open spec fn constraint_views(v: Seq<ConstraintDoc>) -> Seq<(Seq<char>, Seq<char>)> {
    v.map_values(|c: ConstraintDoc| (c.name@, c.description@))
}

/// The entity presets the API can spawn.
pub open spec fn presets_spec() -> Seq<Seq<char>> {
    seq![
        "platformer_player"@,
        "top_down_player"@,
        "patrol_enemy"@,
        "chase_enemy"@,
        "guard_enemy"@,
        "turret"@,
        "flying_enemy"@,
        "boss"@,
        "health_pickup"@,
        "projectile"@,
        "moving_platform"@,
    ]
}

/// No preset is listed twice.
pub proof fn lemma_presets_distinct()
    ensures
        presets_spec().no_duplicates(),
{
    reveal_strlit("platformer_player");
    reveal_strlit("top_down_player");
    reveal_strlit("patrol_enemy");
    reveal_strlit("chase_enemy");
    reveal_strlit("guard_enemy");
    reveal_strlit("turret");
    reveal_strlit("flying_enemy");
    reveal_strlit("boss");
    reveal_strlit("health_pickup");
    reveal_strlit("projectile");
    reveal_strlit("moving_platform");
    let p = presets_spec();
    assert forall|i: int, j: int| 0 <= i < p.len() && 0 <= j < p.len() && i != j implies p[i] != p[j] by {
        if p[i] == p[j] {
            assert(p[i].len() == p[j].len());
            assert(p[i][0] == p[j][0]);
            if p[i].len() > 1 {
                assert(p[i][1] == p[j][1]);
            }
            if p[i].len() > 7 {
                assert(p[i][6] == p[j][6]);
            }
        }
    }
}

/// The level templates the generator offers.
pub open spec fn templates_spec() -> Seq<Seq<char>> {
    seq![
        "platformer"@,
        "top_down_dungeon"@,
        "rts_arena"@,
        "fighting_arena"@,
        "metroidvania"@,
        "roguelike_floor"@,
        "puzzle_platformer"@,
        "arena_waves"@,
        "side_scroller"@,
        "tower_defense_map"@,
        "boss_arena"@,
    ]
}

pub open spec fn endpoints_part0() -> Seq<(Seq<char>, Seq<char>, Seq<char>)> {
    seq![
        ("GET"@, "/state"@, "Get world + player state"@),
        ("GET"@, "/player"@, "Get player state"@),
        ("POST"@, "/level"@, "Set current level tilemap"@),
        ("POST"@, "/player/position"@, "Teleport player"@),
        ("GET"@, "/physics"@, "Get legacy physics config"@),
        ("POST"@, "/physics"@, "Set legacy physics config"@),
        ("POST"@, "/physics/raycast"@, "Tilemap raycast query"@),
        ("POST"@, "/physics/raycast_entities"@, "Entity AABB raycast query"@),
        ("POST"@, "/ai/pathfind"@, "Find path waypoints between world points"@),
        ("POST"@, "/ai/line_of_sight"@, "Check line-of-sight between two world points"@),
        ("GET"@, "/config"@, "Get full config"@),
        ("POST"@, "/config"@, "Set full config (includes pixel_snap, interpolate_transforms). Set AXIOM_TEXTURE_FILTER=nearest env var for pixel-art filtering."@),
        ("POST"@, "/config/tile_types"@, "Set tile type registry"@),
        ("POST"@, "/simulate"@, "Run headless simulation (supports optional goal_position/goal_radius)"@),
        ("POST"@, "/save"@, "Save current game state to slot"@),
        ("POST"@, "/load"@, "Load game state from slot"@),
        ("GET"@, "/saves"@, "List available save slots"@),
    ]
}

pub open spec fn endpoints_part1() -> Seq<(Seq<char>, Seq<char>, Seq<char>)> {
    seq![
        ("POST"@, "/levels/pack"@, "Define or replace a level pack/campaign"@),
        ("POST"@, "/levels/pack/{name}/start"@, "Start a level pack at level 0"@),
        ("POST"@, "/levels/pack/{name}/next"@, "Advance to the next level in a started pack"@),
        ("GET"@, "/levels/pack/{name}/progress"@, "Get current progress for a level pack"@),
        ("POST"@, "/levels/export"@, "Export current level + entities as JSON"@),
        ("POST"@, "/levels/import"@, "Import a previously exported level JSON"@),
        ("POST"@, "/game/export"@, "Export full game/project snapshot as JSON"@),
        ("POST"@, "/game/import"@, "Import full game/project snapshot from JSON"@),
        ("POST"@, "/export/web"@, "Build a web export bundle (wasm + data + html)"@),
        ("POST"@, "/export/desktop"@, "Build a desktop export bundle for a target platform"@),
        ("GET"@, "/examples"@, "List built-in example game recipes"@),
        ("POST"@, "/examples/{name}/load"@, "Generate and load a built-in example recipe"@),
        ("GET"@, "/game/state"@, "Get current runtime game state"@),
        ("POST"@, "/game/state"@, "Set runtime game state"@),
        ("POST"@, "/game/transition"@, "Transition to another runtime game state"@),
        ("GET"@, "/game/transitions"@, "List recent runtime game state transitions"@),
        ("POST"@, "/game/restart"@, "Restart last level loaded via game flow APIs"@),
    ]
}

pub open spec fn endpoints_part2() -> Seq<(Seq<char>, Seq<char>, Seq<char>)> {
    seq![
        ("POST"@, "/game/load_level"@, "Generate+load a level from template and difficulty"@),
        ("POST"@, "/replay/record"@, "Start replay recording for /simulate calls"@),
        ("POST"@, "/replay/stop"@, "Stop replay recording and save to file"@),
        ("POST"@, "/replay/play"@, "Play a saved replay and compare deterministic outcomes"@),
        ("GET"@, "/replay/list"@, "List saved replays and recording status"@),
        ("GET"@, "/debug/overlay"@, "Get debug overlay visibility and feature flags"@),
        ("POST"@, "/debug/overlay"@, "Set debug overlay visibility and feature flags"@),
        ("POST"@, "/audio/sfx"@, "Define named sound effects"@),
        ("POST"@, "/audio/music"@, "Define named music tracks"@),
        ("POST"@, "/audio/play"@, "Play a sound effect or music track"@),
        ("POST"@, "/audio/stop"@, "Stop currently playing music"@),
        ("POST"@, "/audio/config"@, "Set master/sfx/music volume"@),
        ("POST"@, "/audio/triggers"@, "Map gameplay events to auto-play SFX"@),
        ("POST"@, "/particles/presets"@, "Define named particle presets"@),
        ("GET"@, "/audio/state"@, "Get audio definitions and recent audio events"@),
        ("POST"@, "/camera/config"@, "Set camera follow/zoom/deadzone/bounds config"@),
        ("POST"@, "/camera/shake"@, "Trigger camera shake"@),
    ]
}

pub open spec fn endpoints_part3() -> Seq<(Seq<char>, Seq<char>, Seq<char>)> {
    seq![
        ("POST"@, "/camera/look_at"@, "Set explicit camera look-at target"@),
        ("GET"@, "/camera/state"@, "Get current camera runtime state"@),
        ("POST"@, "/ui/screens"@, "Define or replace a UI screen"@),
        ("POST"@, "/ui/screens/{name}/show"@, "Show a named UI screen"@),
        ("POST"@, "/ui/screens/{name}/hide"@, "Hide a named UI screen"@),
        ("POST"@, "/ui/screens/{name}/nodes/{id}"@, "Update a UI node within a screen"@),
        ("GET"@, "/ui/state"@, "Get full UI manager state"@),
        ("POST"@, "/dialogue/conversations"@, "Define or replace a dialogue conversation tree"@),
        ("POST"@, "/dialogue/start"@, "Start a dialogue conversation"@),
        ("GET"@, "/dialogue/state"@, "Get current dialogue node state"@),
        ("POST"@, "/dialogue/choose"@, "Choose an option in the active dialogue"@),
        ("GET"@, "/scene/describe"@, "Describe current scene snapshot (ui/audio/camera/vars/perf)"@),
        ("POST"@, "/validate"@, "Validate constraints"@),
        ("POST"@, "/solve"@, "Auto-solve current level (platformer + top-down modes)"@),
        ("POST"@, "/generate"@, "Generate level from template"@),
        ("GET"@, "/feel/jump"@, "Measure jump profile"@),
        ("GET"@, "/feel/compare"@, "Compare feel to target"@),
    ]
}

pub open spec fn endpoints_part4() -> Seq<(Seq<char>, Seq<char>, Seq<char>)> {
    seq![
        ("POST"@, "/feel/tune"@, "Auto-tune feel"@),
        ("GET"@, "/sprites"@, "Get sprite manifest"@),
        ("POST"@, "/sprites"@, "Set sprite manifest"@),
        ("GET"@, "/sprites/sheets"@, "List named sprite sheet definitions"@),
        ("POST"@, "/sprites/sheets"@, "Define/update a sprite sheet and linked animation graph"@),
        ("GET"@, "/screenshot"@, "Take screenshot in windowed mode (saved to AXIOM_SCREENSHOT_PATH or screenshot.png)"@),
        ("GET"@, "/entities"@, "List entities"@),
        ("POST"@, "/entities"@, "Spawn entity"@),
        ("POST"@, "/entities/preset"@, "Spawn preset entity"@),
        ("POST"@, "/entities/reset_non_player"@, "Delete all non-player entities"@),
        ("GET"@, "/entities/{id}"@, "Get entity by id"@),
        ("DELETE"@, "/entities/{id}"@, "Delete entity"@),
        ("POST"@, "/entities/{id}"@, "Apply damage to entity"@),
        ("POST"@, "/entities/{id}/damage"@, "Apply damage to entity"@),
        ("GET"@, "/entities/{id}/animation"@, "Get entity animation runtime state"@),
        ("POST"@, "/entities/{id}/animation"@, "Force entity animation state"@),
        ("POST"@, "/entities/{id}/particles"@, "Attach or update particle emitter on entity"@),
    ]
}

pub open spec fn endpoints_part5() -> Seq<(Seq<char>, Seq<char>, Seq<char>)> {
    seq![
        ("POST"@, "/entities/{id}/tween"@, "Start a property tween on entity"@),
        ("POST"@, "/entities/{id}/tween_sequence"@, "Start a sequential tween chain on entity"@),
        ("GET"@, "/events"@, "Get recent game events"@),
        ("GET"@, "/events/subscribe"@, "SSE stream of events"@),
        ("GET"@, "/perf"@, "Runtime performance metrics"@),
        ("GET"@, "/perf/history"@, "Recent perf samples ring buffer"@),
        ("GET"@, "/scripts"@, "List scripts"@),
        ("POST"@, "/scripts"@, "Upload/replace script"@),
        ("GET"@, "/scripts/{name}"@, "Get script source"@),
        ("DELETE"@, "/scripts/{name}"@, "Delete script"@),
        ("POST"@, "/scripts/{name}/test"@, "Dry-run script"@),
        ("GET"@, "/scripts/errors"@, "Recent script errors"@),
        ("GET"@, "/scripts/logs"@, "Get recent script log output"@),
        ("GET"@, "/scripts/vars"@, "Get script global vars"@),
        ("POST"@, "/scripts/vars"@, "Set script global vars"@),
        ("GET"@, "/scripts/events"@, "Recent script-emitted events"@),
        ("GET"@, "/scripts/stats"@, "Script runtime health counters (loaded scripts, disabled scripts, dropped events, buffer sizes)"@),
    ]
}

pub open spec fn endpoints_part6() -> Seq<(Seq<char>, Seq<char>, Seq<char>)> {
    seq![
        ("GET"@, "/animations"@, "List animation graphs"@),
        ("GET"@, "/animations/{name}"@, "Get animation graph by name"@),
        ("POST"@, "/animations/{name}"@, "Create/replace animation graph"@),
        ("DELETE"@, "/animations/{name}"@, "Delete animation graph"@),
        ("GET"@, "/animations/state"@, "List entity animation runtime states"@),
        ("GET"@, "/input/gamepad"@, "Get gamepad configuration and connected count"@),
        ("POST"@, "/input/gamepad"@, "Set gamepad configuration"@),
        ("POST"@, "/screen/effect"@, "Trigger a screen effect (fade, flash, tint)"@),
        ("GET"@, "/screen/state"@, "Get current screen effect state"@),
        ("POST"@, "/lighting/config"@, "Set lighting configuration (ambient, enabled)"@),
        ("GET"@, "/lighting/state"@, "Get current lighting state"@),
        ("POST"@, "/entities/{id}/tint"@, "Set sprite color tint on entity"@),
        ("POST"@, "/entities/{id}/trail"@, "Set or remove trail/afterimage effect on entity"@),
        ("GET"@, "/input/bindings"@, "Get current input key bindings"@),
        ("POST"@, "/input/bindings"@, "Set input key bindings"@),
        ("GET"@, "/lighting/day_night"@, "Get day/night cycle state"@),
        ("POST"@, "/lighting/day_night"@, "Configure day/night cycle"@),
    ]
}

pub open spec fn endpoints_part7() -> Seq<(Seq<char>, Seq<char>, Seq<char>)> {
    seq![
        ("POST"@, "/world_text"@, "Spawn floating world-space text"@),
        ("GET"@, "/entities/{id}/state"@, "Get entity state machine"@),
        ("POST"@, "/entities/{id}/state"@, "Transition entity state machine"@),
        ("POST"@, "/tilemap/auto_tile"@, "Set auto-tiling rules"@),
        ("GET"@, "/tilemap/layers"@, "List decorative tile layers"@),
        ("POST"@, "/tilemap/layers"@, "Add or update a decorative tile layer"@),
        ("DELETE"@, "/tilemap/layers/{name}"@, "Delete a decorative tile layer"@),
        ("GET"@, "/parallax/layers"@, "Get parallax background layers"@),
        ("POST"@, "/parallax/layers"@, "Set parallax background layers"@),
        ("GET"@, "/weather"@, "Get current weather state"@),
        ("POST"@, "/weather"@, "Set weather effect (rain, snow, dust)"@),
        ("DELETE"@, "/weather"@, "Clear active weather effect"@),
        ("POST"@, "/items/define"@, "Define item types for inventory system"@),
        ("GET"@, "/entities/{id}/inventory"@, "Get entity inventory"@),
        ("POST"@, "/entities/{id}/inventory"@, "Add/remove/clear items in entity inventory"@),
        ("POST"@, "/cutscene/define"@, "Define a cutscene sequence"@),
        ("POST"@, "/cutscene/play"@, "Play a defined cutscene"@),
    ]
}

pub open spec fn endpoints_part8() -> Seq<(Seq<char>, Seq<char>, Seq<char>)> {
    seq![
        ("POST"@, "/cutscene/stop"@, "Stop the active cutscene"@),
        ("GET"@, "/cutscene/state"@, "Get cutscene playback state"@),
        ("GET"@, "/presets"@, "List custom spawn presets"@),
        ("POST"@, "/presets"@, "Define custom spawn presets"@),
        ("POST"@, "/pool/init"@, "Initialize entity pool with preset"@),
        ("POST"@, "/pool/acquire"@, "Acquire entity from pool"@),
        ("POST"@, "/pool/release/{id}"@, "Release entity back to pool"@),
        ("GET"@, "/pool/status"@, "Get entity pool statistics"@),
        ("GET"@, "/telemetry"@, "Get gameplay telemetry (deaths, inputs, entity counts, damage)"@),
        ("DELETE"@, "/telemetry"@, "Reset gameplay telemetry counters"@),
        ("POST"@, "/simulate/world"@, "Run world simulation. Set real:true for full game loop (scripts, AI, physics, interactions) with virtual inputs, or false for deterministic physics-only sim."@),
        ("POST"@, "/test/scenario"@, "Run scenario test with setup, simulation, and assertions"@),
        ("POST"@, "/test/playtest"@, "Run AI playtester agent that plays the game with heuristic inputs. Returns difficulty rating, events, damage taken, exploration stats. Body: {frames?, mode? (platformer|top_down), goal? (survive|reach_goal|explore)}"@),
        ("POST"@, "/screenshot/baseline"@, "Save current screenshot as visual regression baseline"@),
        ("POST"@, "/screenshot/diff"@, "Compare current screenshot against baseline"@),
        ("POST"@, "/build"@, "Atomic build: apply config, tilemap, entities, scripts in one call"@),
        ("POST"@, "/validate/manifest"@, "Validate build manifest without applying"@),
    ]
}

pub open spec fn endpoints_part9() -> Seq<(Seq<char>, Seq<char>, Seq<char>)> {
    seq![
        ("POST"@, "/assets/upload"@, "Upload base64-encoded image asset"@),
        ("POST"@, "/assets/generate"@, "Generate colored rectangle sprite asset"@),
        ("GET"@, "/assets/list"@, "List image assets in assets directory"@),
        ("GET"@, "/debug/input"@, "Get current virtual input state"@),
        ("GET"@, "/docs"@, "Full API docs"@),
        ("GET"@, "/docs/html"@, "HTML API documentation page"@),
        ("GET"@, "/docs/endpoints"@, "Endpoint list"@),
        ("GET"@, "/docs/components"@, "Component schema list"@),
        ("GET"@, "/docs/presets"@, "Entity preset list"@),
        ("GET"@, "/docs/templates"@, "Generation template list"@),
        ("GET"@, "/docs/constraints"@, "Validation constraint list"@),
        ("GET"@, "/docs/scripts"@, "Scripting API surface (Lua + Rhai helpers)"@),
        ("GET"@, "/docs/examples"@, "Built-in example recipes and defaults"@),
        ("GET"@, "/docs/security"@, "API auth and rate-limit configuration"@),
        ("POST"@, "/window"@, "Set window title and/or background color. Body: {title?: string, background?: [r,g,b]}"@),
        ("POST"@, "/evaluate"@, "Holistic game evaluation: entity census, script health, tilemap quality, game vars. Returns scores + issues + overall rating"@),
        ("POST"@, "/evaluate/screenshot"@, "Take screenshot + analyze + describe scene in one call. Returns screenshot_path, analysis (quadrant colors, overlaps), and scene (entities, vars, game_state)"@),
    ]
}

/// The documented endpoints: method, path, description.
pub open spec fn endpoints_spec() -> Seq<(Seq<char>, Seq<char>, Seq<char>)> {
    endpoints_part0() + endpoints_part1() + endpoints_part2() + endpoints_part3() + endpoints_part4() + endpoints_part5() + endpoints_part6() + endpoints_part7() + endpoints_part8() + endpoints_part9()
}

/// The documented level constraints: name, description.
pub open spec fn constraints_spec() -> Seq<(Seq<char>, Seq<char>)> {
    seq![
        ("reachable"@, "Platformer reachability from spawn to goal"@),
        ("completable"@, "Alias of reachable"@),
        ("top_down_reachable"@, "4-dir top-down reachability"@),
        ("bounds_check"@, "Tile buffer length matches width*height"@),
        ("has_ground"@, "At least one solid tile on y=0"@),
        ("no_softlock"@, "Basic softlock proxy via reachability"@),
        ("difficulty_range:min:max"@, "Estimated difficulty score must be in range [min,max]"@),
        ("enemy_fairness"@, "Enemy pressure along spawn->goal path stays under threshold"@),
        ("item_reachability"@, "All pickups are reachable from spawn"@),
        ("pacing"@, "Enemy placement includes meaningful rest gaps"@),
        ("no_dead_ends[:max_ratio]"@, "Top-down reachable region dead-end ratio under max_ratio (default 0.35)"@),
        ("ability_gating"@, "Any requires_ability has a matching grants_ability in entity metadata"@),
        ("entity_overlap[:threshold_px]"@, "Flags entities within threshold (default 8px) of each other"@),
        ("spawn_in_solid"@, "Flags entities whose position is inside a solid tile"@),
        ("script_errors"@, "Fails if script_errors array in request is non-empty"@),
        ("performance[:fps_min=N]"@, "Checks perf_fps in request meets minimum (default 30)"@),
        ("asset_missing"@, "Checks entity sprite_sheet refs exist in available_assets list"@),
    ]
}

/// The entity presets the API can spawn, in documentation order.
pub fn docs_presets() -> (r: Vec<&'static str>)
    ensures
        str_views(r@) == presets_spec(),
{
    let mut r: Vec<&'static str> = Vec::new();
    r.push("platformer_player");
    r.push("top_down_player");
    r.push("patrol_enemy");
    r.push("chase_enemy");
    r.push("guard_enemy");
    r.push("turret");
    r.push("flying_enemy");
    r.push("boss");
    r.push("health_pickup");
    r.push("projectile");
    r.push("moving_platform");
    assert(str_views(r@) =~= presets_spec());
    r
}

/// The level templates the generator offers, in documentation order.
pub fn docs_templates() -> (r: Vec<&'static str>)
    ensures
        str_views(r@) == templates_spec(),
{
    let mut r: Vec<&'static str> = Vec::new();
    r.push("platformer");
    r.push("top_down_dungeon");
    r.push("rts_arena");
    r.push("fighting_arena");
    r.push("metroidvania");
    r.push("roguelike_floor");
    r.push("puzzle_platformer");
    r.push("arena_waves");
    r.push("side_scroller");
    r.push("tower_defense_map");
    r.push("boss_arena");
    assert(str_views(r@) =~= templates_spec());
    r
}

fn push_endpoints_part0(r: &mut Vec<EndpointDoc>)
    ensures
        endpoint_views(final(r)@) == endpoint_views(old(r)@) + endpoints_part0(),
{
    let ghost start = r@;
    r.push(EndpointDoc { method: "GET", path: "/state", description: "Get world + player state" });
    r.push(EndpointDoc { method: "GET", path: "/player", description: "Get player state" });
    r.push(EndpointDoc { method: "POST", path: "/level", description: "Set current level tilemap" });
    r.push(EndpointDoc { method: "POST", path: "/player/position", description: "Teleport player" });
    r.push(EndpointDoc { method: "GET", path: "/physics", description: "Get legacy physics config" });
    r.push(EndpointDoc { method: "POST", path: "/physics", description: "Set legacy physics config" });
    r.push(EndpointDoc { method: "POST", path: "/physics/raycast", description: "Tilemap raycast query" });
    r.push(EndpointDoc { method: "POST", path: "/physics/raycast_entities", description: "Entity AABB raycast query" });
    r.push(EndpointDoc { method: "POST", path: "/ai/pathfind", description: "Find path waypoints between world points" });
    r.push(EndpointDoc { method: "POST", path: "/ai/line_of_sight", description: "Check line-of-sight between two world points" });
    r.push(EndpointDoc { method: "GET", path: "/config", description: "Get full config" });
    r.push(EndpointDoc { method: "POST", path: "/config", description: "Set full config (includes pixel_snap, interpolate_transforms). Set AXIOM_TEXTURE_FILTER=nearest env var for pixel-art filtering." });
    r.push(EndpointDoc { method: "POST", path: "/config/tile_types", description: "Set tile type registry" });
    r.push(EndpointDoc { method: "POST", path: "/simulate", description: "Run headless simulation (supports optional goal_position/goal_radius)" });
    r.push(EndpointDoc { method: "POST", path: "/save", description: "Save current game state to slot" });
    r.push(EndpointDoc { method: "POST", path: "/load", description: "Load game state from slot" });
    r.push(EndpointDoc { method: "GET", path: "/saves", description: "List available save slots" });
    assert(endpoint_views(r@) =~= endpoint_views(start) + endpoints_part0());
}

fn push_endpoints_part1(r: &mut Vec<EndpointDoc>)
    ensures
        endpoint_views(final(r)@) == endpoint_views(old(r)@) + endpoints_part1(),
{
    let ghost start = r@;
    r.push(EndpointDoc { method: "POST", path: "/levels/pack", description: "Define or replace a level pack/campaign" });
    r.push(EndpointDoc { method: "POST", path: "/levels/pack/{name}/start", description: "Start a level pack at level 0" });
    r.push(EndpointDoc { method: "POST", path: "/levels/pack/{name}/next", description: "Advance to the next level in a started pack" });
    r.push(EndpointDoc { method: "GET", path: "/levels/pack/{name}/progress", description: "Get current progress for a level pack" });
    r.push(EndpointDoc { method: "POST", path: "/levels/export", description: "Export current level + entities as JSON" });
    r.push(EndpointDoc { method: "POST", path: "/levels/import", description: "Import a previously exported level JSON" });
    r.push(EndpointDoc { method: "POST", path: "/game/export", description: "Export full game/project snapshot as JSON" });
    r.push(EndpointDoc { method: "POST", path: "/game/import", description: "Import full game/project snapshot from JSON" });
    r.push(EndpointDoc { method: "POST", path: "/export/web", description: "Build a web export bundle (wasm + data + html)" });
    r.push(EndpointDoc { method: "POST", path: "/export/desktop", description: "Build a desktop export bundle for a target platform" });
    r.push(EndpointDoc { method: "GET", path: "/examples", description: "List built-in example game recipes" });
    r.push(EndpointDoc { method: "POST", path: "/examples/{name}/load", description: "Generate and load a built-in example recipe" });
    r.push(EndpointDoc { method: "GET", path: "/game/state", description: "Get current runtime game state" });
    r.push(EndpointDoc { method: "POST", path: "/game/state", description: "Set runtime game state" });
    r.push(EndpointDoc { method: "POST", path: "/game/transition", description: "Transition to another runtime game state" });
    r.push(EndpointDoc { method: "GET", path: "/game/transitions", description: "List recent runtime game state transitions" });
    r.push(EndpointDoc { method: "POST", path: "/game/restart", description: "Restart last level loaded via game flow APIs" });
    assert(endpoint_views(r@) =~= endpoint_views(start) + endpoints_part1());
}

fn push_endpoints_part2(r: &mut Vec<EndpointDoc>)
    ensures
        endpoint_views(final(r)@) == endpoint_views(old(r)@) + endpoints_part2(),
{
    let ghost start = r@;
    r.push(EndpointDoc { method: "POST", path: "/game/load_level", description: "Generate+load a level from template and difficulty" });
    r.push(EndpointDoc { method: "POST", path: "/replay/record", description: "Start replay recording for /simulate calls" });
    r.push(EndpointDoc { method: "POST", path: "/replay/stop", description: "Stop replay recording and save to file" });
    r.push(EndpointDoc { method: "POST", path: "/replay/play", description: "Play a saved replay and compare deterministic outcomes" });
    r.push(EndpointDoc { method: "GET", path: "/replay/list", description: "List saved replays and recording status" });
    r.push(EndpointDoc { method: "GET", path: "/debug/overlay", description: "Get debug overlay visibility and feature flags" });
    r.push(EndpointDoc { method: "POST", path: "/debug/overlay", description: "Set debug overlay visibility and feature flags" });
    r.push(EndpointDoc { method: "POST", path: "/audio/sfx", description: "Define named sound effects" });
    r.push(EndpointDoc { method: "POST", path: "/audio/music", description: "Define named music tracks" });
    r.push(EndpointDoc { method: "POST", path: "/audio/play", description: "Play a sound effect or music track" });
    r.push(EndpointDoc { method: "POST", path: "/audio/stop", description: "Stop currently playing music" });
    r.push(EndpointDoc { method: "POST", path: "/audio/config", description: "Set master/sfx/music volume" });
    r.push(EndpointDoc { method: "POST", path: "/audio/triggers", description: "Map gameplay events to auto-play SFX" });
    r.push(EndpointDoc { method: "POST", path: "/particles/presets", description: "Define named particle presets" });
    r.push(EndpointDoc { method: "GET", path: "/audio/state", description: "Get audio definitions and recent audio events" });
    r.push(EndpointDoc { method: "POST", path: "/camera/config", description: "Set camera follow/zoom/deadzone/bounds config" });
    r.push(EndpointDoc { method: "POST", path: "/camera/shake", description: "Trigger camera shake" });
    assert(endpoint_views(r@) =~= endpoint_views(start) + endpoints_part2());
}

fn push_endpoints_part3(r: &mut Vec<EndpointDoc>)
    ensures
        endpoint_views(final(r)@) == endpoint_views(old(r)@) + endpoints_part3(),
{
    let ghost start = r@;
    r.push(EndpointDoc { method: "POST", path: "/camera/look_at", description: "Set explicit camera look-at target" });
    r.push(EndpointDoc { method: "GET", path: "/camera/state", description: "Get current camera runtime state" });
    r.push(EndpointDoc { method: "POST", path: "/ui/screens", description: "Define or replace a UI screen" });
    r.push(EndpointDoc { method: "POST", path: "/ui/screens/{name}/show", description: "Show a named UI screen" });
    r.push(EndpointDoc { method: "POST", path: "/ui/screens/{name}/hide", description: "Hide a named UI screen" });
    r.push(EndpointDoc { method: "POST", path: "/ui/screens/{name}/nodes/{id}", description: "Update a UI node within a screen" });
    r.push(EndpointDoc { method: "GET", path: "/ui/state", description: "Get full UI manager state" });
    r.push(EndpointDoc { method: "POST", path: "/dialogue/conversations", description: "Define or replace a dialogue conversation tree" });
    r.push(EndpointDoc { method: "POST", path: "/dialogue/start", description: "Start a dialogue conversation" });
    r.push(EndpointDoc { method: "GET", path: "/dialogue/state", description: "Get current dialogue node state" });
    r.push(EndpointDoc { method: "POST", path: "/dialogue/choose", description: "Choose an option in the active dialogue" });
    r.push(EndpointDoc { method: "GET", path: "/scene/describe", description: "Describe current scene snapshot (ui/audio/camera/vars/perf)" });
    r.push(EndpointDoc { method: "POST", path: "/validate", description: "Validate constraints" });
    r.push(EndpointDoc { method: "POST", path: "/solve", description: "Auto-solve current level (platformer + top-down modes)" });
    r.push(EndpointDoc { method: "POST", path: "/generate", description: "Generate level from template" });
    r.push(EndpointDoc { method: "GET", path: "/feel/jump", description: "Measure jump profile" });
    r.push(EndpointDoc { method: "GET", path: "/feel/compare", description: "Compare feel to target" });
    assert(endpoint_views(r@) =~= endpoint_views(start) + endpoints_part3());
}

fn push_endpoints_part4(r: &mut Vec<EndpointDoc>)
    ensures
        endpoint_views(final(r)@) == endpoint_views(old(r)@) + endpoints_part4(),
{
    let ghost start = r@;
    r.push(EndpointDoc { method: "POST", path: "/feel/tune", description: "Auto-tune feel" });
    r.push(EndpointDoc { method: "GET", path: "/sprites", description: "Get sprite manifest" });
    r.push(EndpointDoc { method: "POST", path: "/sprites", description: "Set sprite manifest" });
    r.push(EndpointDoc { method: "GET", path: "/sprites/sheets", description: "List named sprite sheet definitions" });
    r.push(EndpointDoc { method: "POST", path: "/sprites/sheets", description: "Define/update a sprite sheet and linked animation graph" });
    r.push(EndpointDoc { method: "GET", path: "/screenshot", description: "Take screenshot in windowed mode (saved to AXIOM_SCREENSHOT_PATH or screenshot.png)" });
    r.push(EndpointDoc { method: "GET", path: "/entities", description: "List entities" });
    r.push(EndpointDoc { method: "POST", path: "/entities", description: "Spawn entity" });
    r.push(EndpointDoc { method: "POST", path: "/entities/preset", description: "Spawn preset entity" });
    r.push(EndpointDoc { method: "POST", path: "/entities/reset_non_player", description: "Delete all non-player entities" });
    r.push(EndpointDoc { method: "GET", path: "/entities/{id}", description: "Get entity by id" });
    r.push(EndpointDoc { method: "DELETE", path: "/entities/{id}", description: "Delete entity" });
    r.push(EndpointDoc { method: "POST", path: "/entities/{id}", description: "Apply damage to entity" });
    r.push(EndpointDoc { method: "POST", path: "/entities/{id}/damage", description: "Apply damage to entity" });
    r.push(EndpointDoc { method: "GET", path: "/entities/{id}/animation", description: "Get entity animation runtime state" });
    r.push(EndpointDoc { method: "POST", path: "/entities/{id}/animation", description: "Force entity animation state" });
    r.push(EndpointDoc { method: "POST", path: "/entities/{id}/particles", description: "Attach or update particle emitter on entity" });
    assert(endpoint_views(r@) =~= endpoint_views(start) + endpoints_part4());
}

fn push_endpoints_part5(r: &mut Vec<EndpointDoc>)
    ensures
        endpoint_views(final(r)@) == endpoint_views(old(r)@) + endpoints_part5(),
{
    let ghost start = r@;
    r.push(EndpointDoc { method: "POST", path: "/entities/{id}/tween", description: "Start a property tween on entity" });
    r.push(EndpointDoc { method: "POST", path: "/entities/{id}/tween_sequence", description: "Start a sequential tween chain on entity" });
    r.push(EndpointDoc { method: "GET", path: "/events", description: "Get recent game events" });
    r.push(EndpointDoc { method: "GET", path: "/events/subscribe", description: "SSE stream of events" });
    r.push(EndpointDoc { method: "GET", path: "/perf", description: "Runtime performance metrics" });
    r.push(EndpointDoc { method: "GET", path: "/perf/history", description: "Recent perf samples ring buffer" });
    r.push(EndpointDoc { method: "GET", path: "/scripts", description: "List scripts" });
    r.push(EndpointDoc { method: "POST", path: "/scripts", description: "Upload/replace script" });
    r.push(EndpointDoc { method: "GET", path: "/scripts/{name}", description: "Get script source" });
    r.push(EndpointDoc { method: "DELETE", path: "/scripts/{name}", description: "Delete script" });
    r.push(EndpointDoc { method: "POST", path: "/scripts/{name}/test", description: "Dry-run script" });
    r.push(EndpointDoc { method: "GET", path: "/scripts/errors", description: "Recent script errors" });
    r.push(EndpointDoc { method: "GET", path: "/scripts/logs", description: "Get recent script log output" });
    r.push(EndpointDoc { method: "GET", path: "/scripts/vars", description: "Get script global vars" });
    r.push(EndpointDoc { method: "POST", path: "/scripts/vars", description: "Set script global vars" });
    r.push(EndpointDoc { method: "GET", path: "/scripts/events", description: "Recent script-emitted events" });
    r.push(EndpointDoc { method: "GET", path: "/scripts/stats", description: "Script runtime health counters (loaded scripts, disabled scripts, dropped events, buffer sizes)" });
    assert(endpoint_views(r@) =~= endpoint_views(start) + endpoints_part5());
}

fn push_endpoints_part6(r: &mut Vec<EndpointDoc>)
    ensures
        endpoint_views(final(r)@) == endpoint_views(old(r)@) + endpoints_part6(),
{
    let ghost start = r@;
    r.push(EndpointDoc { method: "GET", path: "/animations", description: "List animation graphs" });
    r.push(EndpointDoc { method: "GET", path: "/animations/{name}", description: "Get animation graph by name" });
    r.push(EndpointDoc { method: "POST", path: "/animations/{name}", description: "Create/replace animation graph" });
    r.push(EndpointDoc { method: "DELETE", path: "/animations/{name}", description: "Delete animation graph" });
    r.push(EndpointDoc { method: "GET", path: "/animations/state", description: "List entity animation runtime states" });
    r.push(EndpointDoc { method: "GET", path: "/input/gamepad", description: "Get gamepad configuration and connected count" });
    r.push(EndpointDoc { method: "POST", path: "/input/gamepad", description: "Set gamepad configuration" });
    r.push(EndpointDoc { method: "POST", path: "/screen/effect", description: "Trigger a screen effect (fade, flash, tint)" });
    r.push(EndpointDoc { method: "GET", path: "/screen/state", description: "Get current screen effect state" });
    r.push(EndpointDoc { method: "POST", path: "/lighting/config", description: "Set lighting configuration (ambient, enabled)" });
    r.push(EndpointDoc { method: "GET", path: "/lighting/state", description: "Get current lighting state" });
    r.push(EndpointDoc { method: "POST", path: "/entities/{id}/tint", description: "Set sprite color tint on entity" });
    r.push(EndpointDoc { method: "POST", path: "/entities/{id}/trail", description: "Set or remove trail/afterimage effect on entity" });
    r.push(EndpointDoc { method: "GET", path: "/input/bindings", description: "Get current input key bindings" });
    r.push(EndpointDoc { method: "POST", path: "/input/bindings", description: "Set input key bindings" });
    r.push(EndpointDoc { method: "GET", path: "/lighting/day_night", description: "Get day/night cycle state" });
    r.push(EndpointDoc { method: "POST", path: "/lighting/day_night", description: "Configure day/night cycle" });
    assert(endpoint_views(r@) =~= endpoint_views(start) + endpoints_part6());
}

fn push_endpoints_part7(r: &mut Vec<EndpointDoc>)
    ensures
        endpoint_views(final(r)@) == endpoint_views(old(r)@) + endpoints_part7(),
{
    let ghost start = r@;
    r.push(EndpointDoc { method: "POST", path: "/world_text", description: "Spawn floating world-space text" });
    r.push(EndpointDoc { method: "GET", path: "/entities/{id}/state", description: "Get entity state machine" });
    r.push(EndpointDoc { method: "POST", path: "/entities/{id}/state", description: "Transition entity state machine" });
    r.push(EndpointDoc { method: "POST", path: "/tilemap/auto_tile", description: "Set auto-tiling rules" });
    r.push(EndpointDoc { method: "GET", path: "/tilemap/layers", description: "List decorative tile layers" });
    r.push(EndpointDoc { method: "POST", path: "/tilemap/layers", description: "Add or update a decorative tile layer" });
    r.push(EndpointDoc { method: "DELETE", path: "/tilemap/layers/{name}", description: "Delete a decorative tile layer" });
    r.push(EndpointDoc { method: "GET", path: "/parallax/layers", description: "Get parallax background layers" });
    r.push(EndpointDoc { method: "POST", path: "/parallax/layers", description: "Set parallax background layers" });
    r.push(EndpointDoc { method: "GET", path: "/weather", description: "Get current weather state" });
    r.push(EndpointDoc { method: "POST", path: "/weather", description: "Set weather effect (rain, snow, dust)" });
    r.push(EndpointDoc { method: "DELETE", path: "/weather", description: "Clear active weather effect" });
    r.push(EndpointDoc { method: "POST", path: "/items/define", description: "Define item types for inventory system" });
    r.push(EndpointDoc { method: "GET", path: "/entities/{id}/inventory", description: "Get entity inventory" });
    r.push(EndpointDoc { method: "POST", path: "/entities/{id}/inventory", description: "Add/remove/clear items in entity inventory" });
    r.push(EndpointDoc { method: "POST", path: "/cutscene/define", description: "Define a cutscene sequence" });
    r.push(EndpointDoc { method: "POST", path: "/cutscene/play", description: "Play a defined cutscene" });
    assert(endpoint_views(r@) =~= endpoint_views(start) + endpoints_part7());
}

fn push_endpoints_part8(r: &mut Vec<EndpointDoc>)
    ensures
        endpoint_views(final(r)@) == endpoint_views(old(r)@) + endpoints_part8(),
{
    let ghost start = r@;
    r.push(EndpointDoc { method: "POST", path: "/cutscene/stop", description: "Stop the active cutscene" });
    r.push(EndpointDoc { method: "GET", path: "/cutscene/state", description: "Get cutscene playback state" });
    r.push(EndpointDoc { method: "GET", path: "/presets", description: "List custom spawn presets" });
    r.push(EndpointDoc { method: "POST", path: "/presets", description: "Define custom spawn presets" });
    r.push(EndpointDoc { method: "POST", path: "/pool/init", description: "Initialize entity pool with preset" });
    r.push(EndpointDoc { method: "POST", path: "/pool/acquire", description: "Acquire entity from pool" });
    r.push(EndpointDoc { method: "POST", path: "/pool/release/{id}", description: "Release entity back to pool" });
    r.push(EndpointDoc { method: "GET", path: "/pool/status", description: "Get entity pool statistics" });
    r.push(EndpointDoc { method: "GET", path: "/telemetry", description: "Get gameplay telemetry (deaths, inputs, entity counts, damage)" });
    r.push(EndpointDoc { method: "DELETE", path: "/telemetry", description: "Reset gameplay telemetry counters" });
    r.push(EndpointDoc { method: "POST", path: "/simulate/world", description: "Run world simulation. Set real:true for full game loop (scripts, AI, physics, interactions) with virtual inputs, or false for deterministic physics-only sim." });
    r.push(EndpointDoc { method: "POST", path: "/test/scenario", description: "Run scenario test with setup, simulation, and assertions" });
    r.push(EndpointDoc { method: "POST", path: "/test/playtest", description: "Run AI playtester agent that plays the game with heuristic inputs. Returns difficulty rating, events, damage taken, exploration stats. Body: {frames?, mode? (platformer|top_down), goal? (survive|reach_goal|explore)}" });
    r.push(EndpointDoc { method: "POST", path: "/screenshot/baseline", description: "Save current screenshot as visual regression baseline" });
    r.push(EndpointDoc { method: "POST", path: "/screenshot/diff", description: "Compare current screenshot against baseline" });
    r.push(EndpointDoc { method: "POST", path: "/build", description: "Atomic build: apply config, tilemap, entities, scripts in one call" });
    r.push(EndpointDoc { method: "POST", path: "/validate/manifest", description: "Validate build manifest without applying" });
    assert(endpoint_views(r@) =~= endpoint_views(start) + endpoints_part8());
}

fn push_endpoints_part9(r: &mut Vec<EndpointDoc>)
    ensures
        endpoint_views(final(r)@) == endpoint_views(old(r)@) + endpoints_part9(),
{
    let ghost start = r@;
    r.push(EndpointDoc { method: "POST", path: "/assets/upload", description: "Upload base64-encoded image asset" });
    r.push(EndpointDoc { method: "POST", path: "/assets/generate", description: "Generate colored rectangle sprite asset" });
    r.push(EndpointDoc { method: "GET", path: "/assets/list", description: "List image assets in assets directory" });
    r.push(EndpointDoc { method: "GET", path: "/debug/input", description: "Get current virtual input state" });
    r.push(EndpointDoc { method: "GET", path: "/docs", description: "Full API docs" });
    r.push(EndpointDoc { method: "GET", path: "/docs/html", description: "HTML API documentation page" });
    r.push(EndpointDoc { method: "GET", path: "/docs/endpoints", description: "Endpoint list" });
    r.push(EndpointDoc { method: "GET", path: "/docs/components", description: "Component schema list" });
    r.push(EndpointDoc { method: "GET", path: "/docs/presets", description: "Entity preset list" });
    r.push(EndpointDoc { method: "GET", path: "/docs/templates", description: "Generation template list" });
    r.push(EndpointDoc { method: "GET", path: "/docs/constraints", description: "Validation constraint list" });
    r.push(EndpointDoc { method: "GET", path: "/docs/scripts", description: "Scripting API surface (Lua + Rhai helpers)" });
    r.push(EndpointDoc { method: "GET", path: "/docs/examples", description: "Built-in example recipes and defaults" });
    r.push(EndpointDoc { method: "GET", path: "/docs/security", description: "API auth and rate-limit configuration" });
    r.push(EndpointDoc { method: "POST", path: "/window", description: "Set window title and/or background color. Body: {title?: string, background?: [r,g,b]}" });
    r.push(EndpointDoc { method: "POST", path: "/evaluate", description: "Holistic game evaluation: entity census, script health, tilemap quality, game vars. Returns scores + issues + overall rating" });
    r.push(EndpointDoc { method: "POST", path: "/evaluate/screenshot", description: "Take screenshot + analyze + describe scene in one call. Returns screenshot_path, analysis (quadrant colors, overlaps), and scene (entities, vars, game_state)" });
    assert(endpoint_views(r@) =~= endpoint_views(start) + endpoints_part9());
}

/// The documented endpoints, in documentation order.
pub fn docs_endpoints() -> (r: Vec<EndpointDoc>)
    ensures
        endpoint_views(r@) == endpoints_spec(),
{
    let mut r: Vec<EndpointDoc> = Vec::new();
    assert(endpoint_views(r@) =~= Seq::empty());
    push_endpoints_part0(&mut r);
    push_endpoints_part1(&mut r);
    push_endpoints_part2(&mut r);
    push_endpoints_part3(&mut r);
    push_endpoints_part4(&mut r);
    push_endpoints_part5(&mut r);
    push_endpoints_part6(&mut r);
    push_endpoints_part7(&mut r);
    push_endpoints_part8(&mut r);
    push_endpoints_part9(&mut r);
    assert(endpoint_views(r@) =~= endpoints_spec());
    r
}

/// The documented level constraints, in documentation order.
pub fn docs_constraints() -> (r: Vec<ConstraintDoc>)
    ensures
        constraint_views(r@) == constraints_spec(),
{
    let mut r: Vec<ConstraintDoc> = Vec::new();
    r.push(ConstraintDoc { name: "reachable", description: "Platformer reachability from spawn to goal" });
    r.push(ConstraintDoc { name: "completable", description: "Alias of reachable" });
    r.push(ConstraintDoc { name: "top_down_reachable", description: "4-dir top-down reachability" });
    r.push(ConstraintDoc { name: "bounds_check", description: "Tile buffer length matches width*height" });
    r.push(ConstraintDoc { name: "has_ground", description: "At least one solid tile on y=0" });
    r.push(ConstraintDoc { name: "no_softlock", description: "Basic softlock proxy via reachability" });
    r.push(ConstraintDoc { name: "difficulty_range:min:max", description: "Estimated difficulty score must be in range [min,max]" });
    r.push(ConstraintDoc { name: "enemy_fairness", description: "Enemy pressure along spawn->goal path stays under threshold" });
    r.push(ConstraintDoc { name: "item_reachability", description: "All pickups are reachable from spawn" });
    r.push(ConstraintDoc { name: "pacing", description: "Enemy placement includes meaningful rest gaps" });
    r.push(ConstraintDoc { name: "no_dead_ends[:max_ratio]", description: "Top-down reachable region dead-end ratio under max_ratio (default 0.35)" });
    r.push(ConstraintDoc { name: "ability_gating", description: "Any requires_ability has a matching grants_ability in entity metadata" });
    r.push(ConstraintDoc { name: "entity_overlap[:threshold_px]", description: "Flags entities within threshold (default 8px) of each other" });
    r.push(ConstraintDoc { name: "spawn_in_solid", description: "Flags entities whose position is inside a solid tile" });
    r.push(ConstraintDoc { name: "script_errors", description: "Fails if script_errors array in request is non-empty" });
    r.push(ConstraintDoc { name: "performance[:fps_min=N]", description: "Checks perf_fps in request meets minimum (default 30)" });
    r.push(ConstraintDoc { name: "asset_missing", description: "Checks entity sprite_sheet refs exist in available_assets list" });
    assert(constraint_views(r@) =~= constraints_spec());
    r
}

/// The HTML escape of one character.
pub open spec fn escape_char_spec(c: char) -> Seq<char> {
    if c == '&' {
        "&amp;"@
    } else if c == '<' {
        "&lt;"@
    } else if c == '>' {
        "&gt;"@
    } else if c == '"' {
        "&quot;"@
    } else if c == '\'' {
        "&#39;"@
    } else {
        seq![c]
    }
}

/// `s` with `&`, `<`, `>`, `"` and `'` replaced by their HTML entities.
pub open spec fn html_escape_spec(s: Seq<char>) -> Seq<char>
    decreases s.len(),
{
    if s.len() == 0 {
        Seq::empty()
    } else {
        html_escape_spec(s.drop_last()) + escape_char_spec(s.last())
    }
}

/// The text with `&`, `<`, `>`, `"` and `'` replaced by their HTML entities.
pub fn html_escape(s: &str) -> (r: String)
    ensures
        r@ == html_escape_spec(s@),
{
    let v = chars_of(s);
    let mut out = String::new();
    let mut i: usize = 0;
    while i < v.len()
        invariant
            i <= v@.len(),
            v@ == s@,
            out@ == html_escape_spec(v@.take(i as int)),
        decreases v@.len() - i,
    {
        let c = v[i];
        assert(v@.take(i + 1).drop_last() == v@.take(i as int));
        if c == '&' {
            out.append("&amp;");
        } else if c == '<' {
            out.append("&lt;");
        } else if c == '>' {
            out.append("&gt;");
        } else if c == '"' {
            out.append("&quot;");
        } else if c == '\'' {
            out.append("&#39;");
        } else {
            let ghost before = out@;
            push_char(&mut out, c);
            assert(out@ =~= before + seq![c]);
        }
        i += 1;
    }
    assert(v@.take(v@.len() as int) == v@);
    out
}

/// One row of the endpoint table of the HTML documentation.
pub open spec fn endpoint_row_spec(method: Seq<char>, path: Seq<char>, description: Seq<char>) -> Seq<char> {
    "<tr><td><code>"@ + html_escape_spec(method) + "</code></td><td><code>"@ + html_escape_spec(path)
        + "</code></td><td>"@ + html_escape_spec(description) + "</td></tr>"@
}

/// The rows for the first `n` endpoints.
pub open spec fn endpoint_rows_spec(eps: Seq<(Seq<char>, Seq<char>, Seq<char>)>, n: int) -> Seq<char>
    decreases n,
{
    if n <= 0 {
        Seq::empty()
    } else {
        endpoint_rows_spec(eps, n - 1) + endpoint_row_spec(eps[n - 1].0, eps[n - 1].1, eps[n - 1].2)
    }
}

/// The table rows of the HTML documentation for the given endpoints, every
/// cell HTML-escaped.
pub fn endpoint_rows_html(eps: &Vec<EndpointDoc>) -> (r: String)
    ensures
        r@ == endpoint_rows_spec(endpoint_views(eps@), eps@.len() as int),
{
    let mut out = String::new();
    let mut i: usize = 0;
    while i < eps.len()
        invariant
            i <= eps@.len(),
            out@ == endpoint_rows_spec(endpoint_views(eps@), i as int),
        decreases eps@.len() - i,
    {
        let e = &eps[i];
        let ghost before = out@;
        out.append("<tr><td><code>");
        out.append(html_escape(e.method).as_str());
        out.append("</code></td><td><code>");
        out.append(html_escape(e.path).as_str());
        out.append("</code></td><td>");
        out.append(html_escape(e.description).as_str());
        out.append("</td></tr>");
        assert(endpoint_views(eps@)[i as int] == (e.method@, e.path@, e.description@));
        assert(out@ =~= before + endpoint_row_spec(e.method@, e.path@, e.description@));
        i += 1;
    }
    out
}

} // verus!
