//! The script, component and security sections of the API documentation,
//! and the HTML documentation page.
use vstd::prelude::*;
use crate::docs::{docs_endpoints, endpoint_rows_html, endpoint_rows_spec, endpoints_spec, html_escape, html_escape_spec, str_views};
use crate::exports::{join_first, join_with};
use crate::order::views;
use crate::text::{decimal_seq, decimal_string, owned};

verus! {

/// One group of helpers that scripts can call.
pub struct ScriptDocGroup {
    pub group: &'static str,
    pub description: &'static str,
    pub fields: Vec<&'static str>,
    pub methods: Vec<&'static str>,
}

/// One documented component and its fields, as (name, type).
pub struct ComponentDoc {
    pub name: &'static str,
    pub fields: Vec<(&'static str, &'static str)>,
}

/// How the API is secured, as documented.
pub struct SecurityDoc {
    pub auth_summary: &'static str,
    pub token_env: &'static str,
    pub accepted_headers: Vec<&'static str>,
    pub rate_summary: &'static str,
    pub rate_env: &'static str,
    /// Requests per second allowed to a client when nothing is configured;
    /// `None`: no limit.
    pub rate_default: Option<u32>,
    pub script_summary: &'static str,
    pub script_envs: Vec<&'static str>,
    pub notes: Vec<&'static str>,
}

/// One row of the examples table, its difficulty already written out.
pub struct ExampleDocRow {
    pub name: String,
    pub genre: String,
    pub template: String,
    pub difficulty: String,
    pub seed: u64,
    pub constraints: Vec<String>,
}

pub open spec fn group_view(g: ScriptDocGroup) -> (Seq<char>, Seq<char>, Seq<Seq<char>>, Seq<Seq<char>>) {
    (g.group@, g.description@, str_views(g.fields@), str_views(g.methods@))
}

pub open spec fn groups_view(v: Seq<ScriptDocGroup>) -> Seq<(Seq<char>, Seq<char>, Seq<Seq<char>>, Seq<Seq<char>>)> {
    v.map_values(|g: ScriptDocGroup| group_view(g))
}

pub open spec fn field_pairs_view(v: Seq<(&'static str, &'static str)>) -> Seq<(Seq<char>, Seq<char>)> {
    v.map_values(|p: (&'static str, &'static str)| (p.0@, p.1@))
}

pub open spec fn components_view(v: Seq<ComponentDoc>) -> Seq<(Seq<char>, Seq<(Seq<char>, Seq<char>)>)> {
    v.map_values(|c: ComponentDoc| (c.name@, field_pairs_view(c.fields@)))
}

/// The documented script helper groups: group, description, fields, methods.
pub open spec fn script_groups_spec() -> Seq<(Seq<char>, Seq<char>, Seq<Seq<char>>, Seq<Seq<char>>)> {
    seq![
        ("entity"@, "Per-entity helpers available in script update(entity, world, dt)."@, seq!["id"@, "x"@, "y"@, "vx"@, "vy"@, "grounded"@, "alive"@, "health"@, "max_health"@, "state"@, "tags"@], seq!["damage(amount)"@, "heal(amount)"@, "knockback(dx, dy)"@, "has_tag(tag)"@, "add_tag(tag)"@, "remove_tag(tag)"@]),
        ("world_core"@, "Core world helpers shared by native Lua and wasm Rhai backends."@, seq!["frame"@, "time"@, "dt"@, "game_state"@, "vars"@], seq!["get_var(name)"@, "set_var(name, value)"@, "emit(name, payload)"@, "on(name)"@, "pressed(action)"@, "just_pressed(action)"@, "get_tile(x, y)"@, "is_solid(x, y)"@, "set_tile(x, y, tile_id)"@]),
        ("world_entities"@, "Entity query helpers exposed to scripts."@, seq![], seq!["player()"@, "get_entity(id)"@, "find_all([tag])"@, "find_in_radius(x, y, radius[, tag])"@, "find_nearest(x, y[, tag])"@, "find_path(start_x, start_y, goal_x, goal_y[, path_type])"@, "line_of_sight(x1, y1, x2, y2)"@, "spawn(spec)"@, "despawn(id)"@, "spawn_projectile(spec)"@, "spawn_particles(preset, x, y)"@]),
        ("world_gameplay"@, "High-level event helpers that map to engine systems."@, seq![], seq!["pause()"@, "resume()"@, "transition(to[, effect[, duration]])"@, "play_sfx(name)"@, "play_music(name)"@, "stop_music()"@, "set_volume(channel, value)"@, "camera_shake(intensity, duration)"@, "camera_zoom(zoom)"@, "camera_look_at(x, y)"@, "show_screen(name)"@, "hide_screen(name)"@]),
    ]
}

pub(crate) fn strs(items: &[&'static str]) -> (r: Vec<&'static str>)
    ensures
        r@ == items@,
{
    let mut r: Vec<&'static str> = Vec::new();
    let mut i: usize = 0;
    while i < items.len()
        invariant
            i <= items@.len(),
            r@ == items@.take(i as int),
        decreases items@.len() - i,
    {
        r.push(items[i]);
        assert(items@.take(i + 1) == items@.take(i as int).push(items@[i as int]));
        i += 1;
    }
    assert(items@.take(items@.len() as int) == items@);
    r
}

/// The helper groups scripts can call, in documentation order.
pub fn docs_scripts() -> (r: Vec<ScriptDocGroup>)
    ensures
        groups_view(r@) == script_groups_spec(),
{
    let mut r: Vec<ScriptDocGroup> = Vec::new();
    r.push(ScriptDocGroup {
        group: "entity",
        description: "Per-entity helpers available in script update(entity, world, dt).",
        fields: strs(&["id", "x", "y", "vx", "vy", "grounded", "alive", "health", "max_health", "state", "tags"]),
        methods: strs(&["damage(amount)", "heal(amount)", "knockback(dx, dy)", "has_tag(tag)", "add_tag(tag)", "remove_tag(tag)"]),
    });
    r.push(ScriptDocGroup {
        group: "world_core",
        description: "Core world helpers shared by native Lua and wasm Rhai backends.",
        fields: strs(&["frame", "time", "dt", "game_state", "vars"]),
        methods: strs(&["get_var(name)", "set_var(name, value)", "emit(name, payload)", "on(name)", "pressed(action)", "just_pressed(action)", "get_tile(x, y)", "is_solid(x, y)", "set_tile(x, y, tile_id)"]),
    });
    r.push(ScriptDocGroup {
        group: "world_entities",
        description: "Entity query helpers exposed to scripts.",
        fields: strs(&[]),
        methods: strs(&["player()", "get_entity(id)", "find_all([tag])", "find_in_radius(x, y, radius[, tag])", "find_nearest(x, y[, tag])", "find_path(start_x, start_y, goal_x, goal_y[, path_type])", "line_of_sight(x1, y1, x2, y2)", "spawn(spec)", "despawn(id)", "spawn_projectile(spec)", "spawn_particles(preset, x, y)"]),
    });
    r.push(ScriptDocGroup {
        group: "world_gameplay",
        description: "High-level event helpers that map to engine systems.",
        fields: strs(&[]),
        methods: strs(&["pause()", "resume()", "transition(to[, effect[, duration]])", "play_sfx(name)", "play_music(name)", "stop_music()", "set_volume(channel, value)", "camera_shake(intensity, duration)", "camera_zoom(zoom)", "camera_look_at(x, y)", "show_screen(name)", "hide_screen(name)"]),
    });
    assert(groups_view(r@) =~~= script_groups_spec());
    r
}

/// The documented components: name and (field, type) pairs.
pub open spec fn components_spec() -> Seq<(Seq<char>, Seq<(Seq<char>, Seq<char>)>)> {
    seq![
        ("collider"@, seq![("width"@, "f32"@), ("height"@, "f32"@)]),
        ("gravity_body"@, seq![]),
        ("horizontal_mover"@, seq![("speed"@, "f32"@), ("left_action"@, "string"@), ("right_action"@, "string"@)]),
        ("jumper"@, seq![("velocity"@, "f32"@), ("action"@, "string"@), ("fall_multiplier"@, "f32"@), ("variable_height"@, "bool"@), ("coyote_frames"@, "u32"@), ("buffer_frames"@, "u32"@)]),
        ("top_down_mover"@, seq![("speed"@, "f32"@), ("up_action"@, "string"@), ("down_action"@, "string"@), ("left_action"@, "string"@), ("right_action"@, "string"@)]),
        ("health"@, seq![("current"@, "f32"@), ("max"@, "f32"@)]),
        ("contact_damage"@, seq![("amount"@, "f32"@), ("cooldown_frames"@, "u32"@), ("knockback"@, "f32"@), ("damage_tag"@, "string"@)]),
        ("trigger_zone"@, seq![("radius"@, "f32"@), ("trigger_tag"@, "string"@), ("event_name"@, "string"@), ("one_shot"@, "bool"@)]),
        ("pickup"@, seq![("pickup_tag"@, "string"@), ("effect"@, "{type: heal|score_add|custom, ...}"@)]),
        ("projectile"@, seq![("speed"@, "f32"@), ("direction"@, "{x,y}"@), ("lifetime_frames"@, "u32"@), ("damage"@, "f32"@), ("owner_id"@, "u64"@), ("damage_tag"@, "string"@)]),
        ("hitbox"@, seq![("width"@, "f32"@), ("height"@, "f32"@), ("offset"@, "{x,y}"@), ("active"@, "bool"@), ("damage"@, "f32"@), ("damage_tag"@, "string"@)]),
        ("moving_platform"@, seq![("waypoints"@, "[{x,y},...]"@), ("speed"@, "f32"@), ("loop_mode"@, "loop|ping_pong"@), ("pause_frames"@, "u32"@), ("carry_riders"@, "bool"@), ("current_waypoint"@, "usize"@), ("direction"@, "i8"@)]),
        ("animation_controller"@, seq![("graph"@, "string"@), ("state"@, "string"@), ("frame"@, "usize"@), ("timer"@, "f32"@), ("speed"@, "f32"@), ("playing"@, "bool"@), ("facing_right"@, "bool"@), ("auto_from_velocity"@, "bool"@)]),
        ("particle_emitter"@, seq![("preset"@, "string?"@), ("emit_rate"@, "f32"@), ("lifetime"@, "f32"@), ("spread_angle"@, "f32"@), ("speed_min"@, "f32"@), ("speed_max"@, "f32"@), ("one_shot"@, "bool"@), ("burst_count"@, "u32"@)]),
        ("path_follower"@, seq![("target"@, "{x,y}"@), ("recalculate_interval"@, "u32"@), ("path_type"@, "top_down|platformer"@), ("speed"@, "f32"@)]),
        ("ai_behavior"@, seq![("behavior"@, "{type: patrol|chase|flee|guard|wander|custom, ...}"@)]),
        ("collision_layer"@, seq![("layer"@, "u16 (bitmask)"@), ("mask"@, "u16 (bitmask)"@)]),
        ("sprite_color_tint"@, seq![("color"@, "[f32;4] RGBA"@), ("flash_color"@, "[f32;4]?"@), ("flash_frames"@, "u32"@)]),
        ("trail_effect"@, seq![("interval"@, "u32 (frames between ghosts)"@), ("duration"@, "f32 (ghost lifetime)"@), ("alpha_start"@, "f32"@), ("alpha_end"@, "f32"@)]),
        ("state_machine"@, seq![("initial"@, "string"@), ("states"@, "{ name: { allowed_transitions, on_enter_event?, on_exit_event? } }"@)]),
        ("inventory"@, seq![("max_slots"@, "usize"@)]),
    ]
}

fn pairs(items: &[(&'static str, &'static str)]) -> (r: Vec<(&'static str, &'static str)>)
    ensures
        r@ == items@,
{
    let mut r: Vec<(&'static str, &'static str)> = Vec::new();
    let mut i: usize = 0;
    while i < items.len()
        invariant
            i <= items@.len(),
            r@ == items@.take(i as int),
        decreases items@.len() - i,
    {
        r.push(items[i]);
        assert(items@.take(i + 1) == items@.take(i as int).push(items@[i as int]));
        i += 1;
    }
    assert(items@.take(items@.len() as int) == items@);
    r
}

/// The components an entity can be given, in documentation order.
pub fn docs_components() -> (r: Vec<ComponentDoc>)
    ensures
        components_view(r@) == components_spec(),
{
    let mut r: Vec<ComponentDoc> = Vec::new();
    r.push(ComponentDoc { name: "collider", fields: pairs(&[("width", "f32"), ("height", "f32")]) });
    r.push(ComponentDoc { name: "gravity_body", fields: pairs(&[]) });
    r.push(ComponentDoc { name: "horizontal_mover", fields: pairs(&[("speed", "f32"), ("left_action", "string"), ("right_action", "string")]) });
    r.push(ComponentDoc { name: "jumper", fields: pairs(&[("velocity", "f32"), ("action", "string"), ("fall_multiplier", "f32"), ("variable_height", "bool"), ("coyote_frames", "u32"), ("buffer_frames", "u32")]) });
    r.push(ComponentDoc { name: "top_down_mover", fields: pairs(&[("speed", "f32"), ("up_action", "string"), ("down_action", "string"), ("left_action", "string"), ("right_action", "string")]) });
    r.push(ComponentDoc { name: "health", fields: pairs(&[("current", "f32"), ("max", "f32")]) });
    r.push(ComponentDoc { name: "contact_damage", fields: pairs(&[("amount", "f32"), ("cooldown_frames", "u32"), ("knockback", "f32"), ("damage_tag", "string")]) });
    r.push(ComponentDoc { name: "trigger_zone", fields: pairs(&[("radius", "f32"), ("trigger_tag", "string"), ("event_name", "string"), ("one_shot", "bool")]) });
    r.push(ComponentDoc { name: "pickup", fields: pairs(&[("pickup_tag", "string"), ("effect", "{type: heal|score_add|custom, ...}")]) });
    r.push(ComponentDoc { name: "projectile", fields: pairs(&[("speed", "f32"), ("direction", "{x,y}"), ("lifetime_frames", "u32"), ("damage", "f32"), ("owner_id", "u64"), ("damage_tag", "string")]) });
    r.push(ComponentDoc { name: "hitbox", fields: pairs(&[("width", "f32"), ("height", "f32"), ("offset", "{x,y}"), ("active", "bool"), ("damage", "f32"), ("damage_tag", "string")]) });
    r.push(ComponentDoc { name: "moving_platform", fields: pairs(&[("waypoints", "[{x,y},...]"), ("speed", "f32"), ("loop_mode", "loop|ping_pong"), ("pause_frames", "u32"), ("carry_riders", "bool"), ("current_waypoint", "usize"), ("direction", "i8")]) });
    r.push(ComponentDoc { name: "animation_controller", fields: pairs(&[("graph", "string"), ("state", "string"), ("frame", "usize"), ("timer", "f32"), ("speed", "f32"), ("playing", "bool"), ("facing_right", "bool"), ("auto_from_velocity", "bool")]) });
    r.push(ComponentDoc { name: "particle_emitter", fields: pairs(&[("preset", "string?"), ("emit_rate", "f32"), ("lifetime", "f32"), ("spread_angle", "f32"), ("speed_min", "f32"), ("speed_max", "f32"), ("one_shot", "bool"), ("burst_count", "u32")]) });
    r.push(ComponentDoc { name: "path_follower", fields: pairs(&[("target", "{x,y}"), ("recalculate_interval", "u32"), ("path_type", "top_down|platformer"), ("speed", "f32")]) });
    r.push(ComponentDoc { name: "ai_behavior", fields: pairs(&[("behavior", "{type: patrol|chase|flee|guard|wander|custom, ...}")]) });
    r.push(ComponentDoc { name: "collision_layer", fields: pairs(&[("layer", "u16 (bitmask)"), ("mask", "u16 (bitmask)")]) });
    r.push(ComponentDoc { name: "sprite_color_tint", fields: pairs(&[("color", "[f32;4] RGBA"), ("flash_color", "[f32;4]?"), ("flash_frames", "u32")]) });
    r.push(ComponentDoc { name: "trail_effect", fields: pairs(&[("interval", "u32 (frames between ghosts)"), ("duration", "f32 (ghost lifetime)"), ("alpha_start", "f32"), ("alpha_end", "f32")]) });
    r.push(ComponentDoc { name: "state_machine", fields: pairs(&[("initial", "string"), ("states", "{ name: { allowed_transitions, on_enter_event?, on_exit_event? } }")]) });
    r.push(ComponentDoc { name: "inventory", fields: pairs(&[("max_slots", "usize")]) });
    assert(components_view(r@) =~~= components_spec());
    r
}

/// The documented security settings: the token setting and the headers that
/// carry a token; the rate-limit setting and its default, the guard's own;
/// the script watchdog settings; and notes.
pub fn docs_security() -> (r: SecurityDoc)
    ensures
        r.token_env@ == "AXIOM_API_TOKEN"@,
        str_views(r.accepted_headers@) == seq!["Authorization: Bearer <token>"@, "X-API-Key: <token>"@],
        r.rate_env@ == "AXIOM_API_RATE_LIMIT_PER_SEC"@,
        r.rate_default is None,
        str_views(r.script_envs@) == seq![
            "AXIOM_SCRIPT_ENTITY_BUDGET_MS"@,
            "AXIOM_SCRIPT_GLOBAL_BUDGET_MS"@,
            "AXIOM_SCRIPT_HOOK_INSTRUCTION_INTERVAL"@,
            "AXIOM_RHAI_MAX_OPERATIONS"@,
            "AXIOM_RHAI_MAX_CALL_LEVELS"@,
        ],
        r.auth_summary@ == "Optional token auth for all API routes."@,
        r.rate_summary@ == "Per-client request limit (per second)."@,
        r.script_summary@ == "Per-script execution watchdog limits (native Lua and wasm Rhai)."@,
        str_views(r.notes@) == seq![
            "When AXIOM_API_TOKEN is unset, token auth is disabled."@,
            "Rate limiting is off unless AXIOM_API_RATE_LIMIT_PER_SEC is set; it is keyed by client address."@,
        ],
{
    let r = SecurityDoc {
        auth_summary: "Optional token auth for all API routes.",
        token_env: "AXIOM_API_TOKEN",
        accepted_headers: strs(&["Authorization: Bearer <token>", "X-API-Key: <token>"]),
        rate_summary: "Per-client request limit (per second).",
        rate_env: "AXIOM_API_RATE_LIMIT_PER_SEC",
        rate_default: None,
        script_summary: "Per-script execution watchdog limits (native Lua and wasm Rhai).",
        script_envs: strs(
            &[
                "AXIOM_SCRIPT_ENTITY_BUDGET_MS",
                "AXIOM_SCRIPT_GLOBAL_BUDGET_MS",
                "AXIOM_SCRIPT_HOOK_INSTRUCTION_INTERVAL",
                "AXIOM_RHAI_MAX_OPERATIONS",
                "AXIOM_RHAI_MAX_CALL_LEVELS",
            ],
        ),
        notes: strs(
            &[
                "When AXIOM_API_TOKEN is unset, token auth is disabled.",
                "Rate limiting is off unless AXIOM_API_RATE_LIMIT_PER_SEC is set; it is keyed by client address.",
            ],
        ),
    };
    assert(str_views(r.accepted_headers@) =~= seq!["Authorization: Bearer <token>"@, "X-API-Key: <token>"@]);
    assert(str_views(r.script_envs@) =~= seq![
        "AXIOM_SCRIPT_ENTITY_BUDGET_MS"@,
        "AXIOM_SCRIPT_GLOBAL_BUDGET_MS"@,
        "AXIOM_SCRIPT_HOOK_INSTRUCTION_INTERVAL"@,
        "AXIOM_RHAI_MAX_OPERATIONS"@,
        "AXIOM_RHAI_MAX_CALL_LEVELS"@,
    ]);
    assert(str_views(r.notes@) =~= seq![
        "When AXIOM_API_TOKEN is unset, token auth is disabled."@,
        "Rate limiting is off unless AXIOM_API_RATE_LIMIT_PER_SEC is set; it is keyed by client address."@,
    ]);
    r
}

/// The start of the documentation page, up to the endpoint table's rows.
pub open spec fn page_head() -> Seq<char> {
    PAGE_HEAD@
}

/// The heading of the examples table, up to its rows.
pub open spec fn examples_head() -> Seq<char> {
    EXAMPLES_HEAD@
}

pub open spec fn escaped_all(v: Seq<Seq<char>>) -> Seq<Seq<char>> {
    v.map_values(|s: Seq<char>| html_escape_spec(s))
}

/// One row of the examples table; every text cell is escaped and the
/// constraints are joined with `, `.
pub open spec fn example_row_spec(e: ExampleDocRow) -> Seq<char> {
    "<tr><td><code>"@ + html_escape_spec(e.name@) + "</code></td><td>"@ + html_escape_spec(e.genre@)
        + "</td><td><code>"@ + html_escape_spec(e.template@) + "</code></td><td>"@ + e.difficulty@
        + "</td><td>"@ + decimal_seq(e.seed as nat) + "</td><td>"@ + join_with(
        escaped_all(views(e.constraints@)),
        e.constraints@.len() as int,
        ", "@,
    ) + "</td></tr>"@
}

/// The rows for the first `n` examples.
pub open spec fn example_rows_spec(ex: Seq<ExampleDocRow>, n: int) -> Seq<char>
    decreases n,
{
    if n <= 0 {
        Seq::empty()
    } else {
        example_rows_spec(ex, n - 1) + example_row_spec(ex[n - 1])
    }
}

pub open spec fn coded(v: Seq<Seq<char>>) -> Seq<Seq<char>> {
    v.map_values(|s: Seq<char>| "<code>"@ + html_escape_spec(s) + "</code>"@)
}

/// The default rate limit as the page writes it.
pub open spec fn rate_default_text(d: Option<u32>) -> Seq<char> {
    match d {
        Some(n) => "<code>"@ + decimal_seq(n as nat) + "</code>/sec"@,
        None => "unlimited"@,
    }
}

/// The security section of the page.
pub open spec fn security_section_spec(token_env: Seq<char>, rate_env: Seq<char>, rate_default: Option<u32>, envs: Seq<Seq<char>>) -> Seq<char> {
    "<h2>Security</h2><p><code>"@ + html_escape_spec(token_env)
        + "</code> enables token auth via <code>Authorization: Bearer &lt;token&gt;</code> or <code>X-API-Key</code>.</p><p><code>"@
        + html_escape_spec(rate_env) + "</code> controls per-client request rate (default "@
        + rate_default_text(rate_default) + ").</p><p>Script runtime guards: "@ + (if envs.len() == 0 {
        "<em>not configured</em>"@
    } else {
        join_with(coded(envs), envs.len() as int, ", "@)
    }) + "</p>"@
}

/// The whole documentation page for the given examples.
pub open spec fn docs_page_spec(examples: Seq<ExampleDocRow>) -> Seq<char> {
    let eps = endpoints_spec();
    page_head() + endpoint_rows_spec(eps, eps.len() as int) + "</tbody></table>"@ + examples_head()
        + example_rows_spec(examples, examples.len() as int) + "</tbody></table>"@ + security_section_spec(
        "AXIOM_API_TOKEN"@,
        "AXIOM_API_RATE_LIMIT_PER_SEC"@,
        None,
        seq![
            "AXIOM_SCRIPT_ENTITY_BUDGET_MS"@,
            "AXIOM_SCRIPT_GLOBAL_BUDGET_MS"@,
            "AXIOM_SCRIPT_HOOK_INSTRUCTION_INTERVAL"@,
            "AXIOM_RHAI_MAX_OPERATIONS"@,
            "AXIOM_RHAI_MAX_CALL_LEVELS"@,
        ],
    ) + "</body></html>"@
}
pub const PAGE_HEAD: &'static str = "<!doctype html><html><head><meta charset=\"utf-8\"/><meta name=\"viewport\" content=\"width=device-width,initial-scale=1\"/><title>Axiom API Docs</title><style>body{font-family:ui-sans-serif,system-ui,sans-serif;margin:24px;line-height:1.4;}h1{margin-bottom:4px;}table{border-collapse:collapse;width:100%;margin-top:12px;}th,td{border:1px solid #ddd;padding:8px;text-align:left;vertical-align:top;}th{background:#f5f5f5;}code{background:#f2f2f2;padding:1px 4px;border-radius:4px;}.muted{color:#666;font-size:0.95em;}</style></head><body><h1>Axiom API</h1><div class=\"muted\">Generated runtime docs</div><h2>Endpoints</h2><table><thead><tr><th>Method</th><th>Path</th><th>Description</th></tr></thead><tbody>";

pub const EXAMPLES_HEAD: &'static str = "<h2>Built-in Examples</h2><table><thead><tr><th>Name</th><th>Genre</th><th>Template</th><th>Difficulty</th><th>Seed</th><th>Constraints</th></tr></thead><tbody>";

fn escape_each(v: &Vec<String>) -> (r: Vec<String>)
    ensures
        views(r@) == escaped_all(views(v@)),
{
    let mut r: Vec<String> = Vec::new();
    let mut i: usize = 0;
    while i < v.len()
        invariant
            i <= v@.len(),
            r@.len() == i,
            forall|j: int| 0 <= j < i ==> #[trigger] r@[j]@ == html_escape_spec(v@[j]@),
        decreases v@.len() - i,
    {
        r.push(html_escape(v[i].as_str()));
        i += 1;
    }
    assert(views(r@) =~= escaped_all(views(v@)));
    r
}

fn example_row(e: &ExampleDocRow) -> (r: String)
    ensures
        r@ == example_row_spec(*e),
{
    let esc = escape_each(&e.constraints);
    assert(views(esc@) == escaped_all(views(e.constraints@)));
    let mut out = owned("<tr><td><code>");
    out.append(html_escape(e.name.as_str()).as_str());
    out.append("</code></td><td>");
    out.append(html_escape(e.genre.as_str()).as_str());
    out.append("</td><td><code>");
    out.append(html_escape(e.template.as_str()).as_str());
    out.append("</code></td><td>");
    out.append(e.difficulty.as_str());
    out.append("</td><td>");
    out.append(decimal_string(e.seed).as_str());
    out.append("</td><td>");
    let joined = join_first(&esc, esc.len(), ", ");
    assert(esc@.len() == views(esc@).len());
    assert(joined@ == join_with(escaped_all(views(e.constraints@)), e.constraints@.len() as int, ", "@));
    out.append(joined.as_str());
    out.append("</td></tr>");
    assert(out@ =~= example_row_spec(*e));
    out
}

fn coded_each(v: &Vec<&'static str>) -> (r: Vec<String>)
    ensures
        views(r@) == coded(str_views(v@)),
{
    let mut r: Vec<String> = Vec::new();
    let mut i: usize = 0;
    while i < v.len()
        invariant
            i <= v@.len(),
            r@.len() == i,
            forall|j: int| 0 <= j < i ==> #[trigger] r@[j]@ == "<code>"@ + html_escape_spec(v@[j]@) + "</code>"@,
        decreases v@.len() - i,
    {
        let mut s = owned("<code>");
        s.append(html_escape(v[i]).as_str());
        s.append("</code>");
        r.push(s);
        i += 1;
    }
    assert(views(r@) =~= coded(str_views(v@)));
    r
}

/// The HTML documentation page: the endpoint table, the table of the given
/// built-in examples, and the security settings, every text escaped.
pub fn get_docs_html(examples: &Vec<ExampleDocRow>) -> (r: String)
    ensures
        r@ == docs_page_spec(examples@),
{
    let mut out = owned(PAGE_HEAD);
    let eps = docs_endpoints();
    out.append(endpoint_rows_html(&eps).as_str());
    out.append("</tbody></table>");
    out.append(EXAMPLES_HEAD);
    let ghost before_rows = out@;
    assert(before_rows == page_head() + endpoint_rows_spec(endpoints_spec(), endpoints_spec().len() as int)
        + "</tbody></table>"@ + examples_head());
    let mut i: usize = 0;
    while i < examples.len()
        invariant
            i <= examples@.len(),
            out@ == before_rows + example_rows_spec(examples@, i as int),
        decreases examples@.len() - i,
    {
        let row = example_row(&examples[i]);
        out.append(row.as_str());
        assert(out@ =~= before_rows + example_rows_spec(examples@, i + 1));
        i += 1;
    }
    out.append("</tbody></table>");
    let ghost before_security = out@;
    let sec = docs_security();
    let mut part = owned("<h2>Security</h2><p><code>");
    part.append(html_escape(sec.token_env).as_str());
    part.append(
        "</code> enables token auth via <code>Authorization: Bearer &lt;token&gt;</code> or <code>X-API-Key</code>.</p><p><code>",
    );
    part.append(html_escape(sec.rate_env).as_str());
    part.append("</code> controls per-client request rate (default ");
    match sec.rate_default {
        Some(n) => {
            part.append("<code>");
            part.append(decimal_string(n as u64).as_str());
            part.append("</code>/sec");
        },
        None => {
            part.append("unlimited");
        },
    }
    part.append(").</p><p>Script runtime guards: ");
    let ghost envs = str_views(sec.script_envs@);
    let ghost head = part@;
    let guards = if sec.script_envs.len() == 0 {
        owned("<em>not configured</em>")
    } else {
        let coded_envs = coded_each(&sec.script_envs);
        assert(coded_envs@.len() == views(coded_envs@).len());
        join_first(&coded_envs, coded_envs.len(), ", ")
    };
    assert(guards@ == (if envs.len() == 0 {
        "<em>not configured</em>"@
    } else {
        join_with(coded(envs), envs.len() as int, ", "@)
    }));
    part.append(guards.as_str());
    part.append("</p>");
    assert(part@ =~= security_section_spec(
        sec.token_env@,
        sec.rate_env@,
        sec.rate_default,
        envs,
    ));
    out.append(part.as_str());
    out.append("</body></html>");
    out
}

} // verus!
