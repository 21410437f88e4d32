//! Request and response records of the HTTP API, and the default values that
//! missing request fields take.
use vstd::prelude::*;
use std::collections::HashMap;
use crate::text::owned;

verus! {

// ---- defaults of request fields -------------------------------------------

/// Default key for moving left.
pub fn default_left() -> (r: String)
    ensures
        r@ == "left"@,
{
    owned("left")
}

/// Default key for moving right.
pub fn default_right() -> (r: String)
    ensures
        r@ == "right"@,
{
    owned("right")
}

/// Default key for moving up.
pub fn default_up() -> (r: String)
    ensures
        r@ == "up"@,
{
    owned("up")
}

/// Default key for moving down.
pub fn default_down() -> (r: String)
    ensures
        r@ == "down"@,
{
    owned("down")
}

/// Default key for jumping.
pub fn default_jump() -> (r: String)
    ensures
        r@ == "jump"@,
{
    owned("jump")
}

/// Default for flags that are on unless turned off.
pub fn default_true() -> (r: bool)
    ensures
        r,
{
    true
}

/// Default number of coyote-time frames.
pub fn default_coyote() -> (r: u32)
    ensures
        r == 5,
{
    5
}

/// Default number of jump-buffer frames.
pub fn default_buffer() -> (r: u32)
    ensures
        r == 4,
{
    4
}

/// Default frames between two contact-damage hits.
pub fn default_damage_cooldown() -> (r: u32)
    ensures
        r == 12,
{
    12
}

/// Default frames between path recalculations.
pub fn default_recalculate_interval() -> (r: u32)
    ensures
        r == 20,
{
    20
}

/// Default direction of a moving platform.
pub fn default_platform_direction() -> (r: i8)
    ensures
        r == 1,
{
    1
}

/// Default animation state.
pub fn default_animation_state() -> (r: String)
    ensures
        r@ == "idle"@,
{
    owned("idle")
}

/// Default facing direction: 5, south (towards the camera).
pub fn default_facing_direction() -> (r: u8)
    ensures
        r == 5,
{
    5
}

/// Default collision layer.
pub fn default_collision_layer() -> (r: u16)
    ensures
        r == 1,
{
    1
}

/// Default collision mask: every layer.
pub fn default_collision_mask() -> (r: u16)
    ensures
        r == 0xffff,
{
    0xffff
}

/// Default frames between two trail ghosts.
pub fn default_trail_interval() -> (r: u32)
    ensures
        r == 3,
{
    3
}

/// Default initial state of an entity state machine.
pub fn default_state_machine_initial() -> (r: String)
    ensures
        r@ == "idle"@,
{
    owned("idle")
}

/// Default number of inventory slots.
pub fn default_max_slots() -> (r: usize)
    ensures
        r == 20,
{
    20
}

/// Default tag an AI behaviour targets.
pub fn default_player_tag() -> (r: String)
    ensures
        r@ == "player"@,
{
    owned("player")
}

/// Default pause between two wander moves, in frames.
pub fn default_pause_frames() -> (r: u32)
    ensures
        r == 30,
{
    30
}

/// Default seed when loading a generated level.
pub fn default_load_seed() -> (r: u64)
    ensures
        r == 42,
{
    42
}

/// Default seed of a level-pack level.
pub fn default_pack_seed() -> (r: u64)
    ensures
        r == 42,
{
    42
}

/// Default for counts that start at one.
pub fn default_one_u32() -> (r: u32)
    ensures
        r == 1,
{
    1
}

/// Default for whether a terrain material autotiles.
pub fn default_autotile() -> (r: bool)
    ensures
        r,
{
    true
}

/// Default autotile frame width in pixels.
pub fn default_frame_width() -> (r: u32)
    ensures
        r == 128,
{
    128
}

/// Default autotile frame height in pixels.
pub fn default_frame_height() -> (r: u32)
    ensures
        r == 256,
{
    256
}

/// Default number of items in an inventory action.
pub fn default_item_count() -> (r: u32)
    ensures
        r == 1,
{
    1
}

/// Default length of an automated playtest, in frames.
pub fn default_playtest_frames() -> (r: u32)
    ensures
        r == 600,
{
    600
}

/// Default size of a generated placeholder asset, in pixels.
pub fn default_asset_gen_size() -> (r: u32)
    ensures
        r == 32,
{
    32
}

/// Default colour of a generated placeholder asset: mid grey.
pub fn default_asset_color() -> (r: [u8; 3])
    ensures
        r@ == seq![128u8, 128u8, 128u8],
{
    [128, 128, 128]
}

/// Default next network id of a save without one.
pub fn default_next_network_id() -> (r: u64)
    ensures
        r == 1,
{
    1
}

/// Default runtime game state of a save without one.
pub fn default_game_state() -> (r: String)
    ensures
        r@ == "Playing"@,
{
    owned("Playing")
}

// ---- path and platform kinds ----------------------------------------------

/// How a path follower plans its route (runtime form).
#[derive(PartialEq, Eq, Structural, Clone, Copy, Debug)]
pub enum PathType {
    TopDown,
    Platformer,
}

/// How a path follower plans its route (API form).
#[derive(PartialEq, Eq, Structural, Clone, Copy, Debug)]
pub enum PathTypeDef {
    TopDown,
    Platformer,
}

/// How a moving platform runs through its waypoints (runtime form).
#[derive(PartialEq, Eq, Structural, Clone, Copy, Debug)]
pub enum PlatformLoopMode {
    Loop,
    PingPong,
}

/// How a moving platform runs through its waypoints (API form).
#[derive(PartialEq, Eq, Structural, Clone, Copy, Debug)]
pub enum PlatformLoopModeDef {
    Loop,
    PingPong,
}

/// The API form of a path type, variant for variant.
pub fn path_type_to_def(path_type: PathType) -> (r: PathTypeDef)
    ensures
        r == (match path_type {
            PathType::TopDown => PathTypeDef::TopDown,
            PathType::Platformer => PathTypeDef::Platformer,
        }),
{
    match path_type {
        PathType::TopDown => PathTypeDef::TopDown,
        PathType::Platformer => PathTypeDef::Platformer,
    }
}

/// The API form of a platform loop mode, variant for variant.
pub fn platform_loop_mode_to_def(mode: PlatformLoopMode) -> (r: PlatformLoopModeDef)
    ensures
        r == (match mode {
            PlatformLoopMode::Loop => PlatformLoopModeDef::Loop,
            PlatformLoopMode::PingPong => PlatformLoopModeDef::PingPong,
        }),
{
    match mode {
        PlatformLoopMode::Loop => PlatformLoopModeDef::Loop,
        PlatformLoopMode::PingPong => PlatformLoopModeDef::PingPong,
    }
}

// ---- requests and responses -----------------------------------------------

/// The envelope of every API reply: `ok` tells success, `data` carries the
/// payload of a success and `error` the message of a failure.
pub struct ApiResponse<T> {
    pub ok: bool,
    pub data: Option<T>,
    pub error: Option<String>,
}

impl<T> ApiResponse<T> {
    /// A successful reply carrying `data`.
    pub fn success(data: T) -> (r: Self)
        ensures
            r.ok,
            r.data == Some(data),
            r.error.is_none(),
    {
        ApiResponse { ok: true, data: Some(data), error: None }
    }
}

impl ApiResponse<()> {
    /// A successful reply whose payload is the text `ok`.
    pub fn ok() -> (r: ApiResponse<String>)
        ensures
            r.ok,
            r.data is Some && r.data->0@ == "ok"@,
            r.error.is_none(),
    {
        ApiResponse { ok: true, data: Some(owned("ok")), error: None }
    }

    /// A failed reply with the message `msg` and no payload.
    pub fn err(msg: String) -> (r: ApiResponse<String>)
        ensures
            !r.ok,
            r.data.is_none(),
            r.error == Some(msg),
    {
        ApiResponse { ok: false, data: None, error: Some(msg) }
    }
}


pub struct SaveSlotRequest {
    pub slot: String,
}

pub struct EntityAnimationRequest {
    pub animation: String,
}

pub struct SetGameStateRequest {
    pub state: String,
}

pub struct ReplayRecordRequest {
    pub name: Option<String>,
}

pub struct ReplayStopRequest {
    pub name: Option<String>,
}

pub struct ReplayPlayRequest {
    pub name: String,
}

pub struct DebugOverlayRequest {
    pub show: bool,
    pub features: Vec<String>,
}

pub struct DebugOverlayState {
    pub show: bool,
    pub features: Vec<String>,
}

pub struct ExportWebRequest {
    pub title: Option<String>,
    pub width: Option<u32>,
    pub height: Option<u32>,
    pub levels: Option<String>,
    pub embed_assets: Option<bool>,
    pub strip_incompatible_scripts: Option<bool>,
    pub release: Option<bool>,
}

pub struct ExportDesktopRequest {
    pub title: Option<String>,
    pub target: Option<String>,
    pub release: Option<bool>,
}

pub struct AudioTriggerRequest {
    pub mappings: HashMap<String, String>,
}

pub struct DialogueStartRequest {
    pub conversation: String,
}

pub struct DialogueChooseRequest {
    pub choice: usize,
}

pub struct InputBindingsRequest {
    pub keyboard: HashMap<String, Vec<String>>,
    pub gamepad: HashMap<String, Vec<String>>,
}

pub struct InputBindingsResponse {
    pub keyboard: HashMap<String, Vec<String>>,
    pub gamepad: HashMap<String, Vec<String>>,
}

pub struct StateTransitionRequest {
    pub state: String,
}

pub struct StateMachineResponse {
    pub current: String,
    pub previous: Option<String>,
    pub entered_at_frame: u64,
    pub states: Vec<String>,
}

pub struct AutoTileRequest {
    pub rules: HashMap<String, AutoTileSetDef>,
}

pub struct AutoTileSetDef {
    pub base_tile_id: u8,
    /// 4-bit bitmask (N/S/E/W) to sprite index.
    pub variants: HashMap<u8, usize>,
}

pub struct TerrainMaterialRequest {
    /// Human-readable name (e.g. "grass").
    pub name: String,
    /// Tile type id that triggers this material's autotiling.
    pub tile_id: u8,
    /// Path to the autotile atlas image (13 or 20 frames).
    pub atlas: String,
    pub frame_width: u32,
    pub frame_height: u32,
    /// Optional slot-to-frame mapping (13 entries).
    pub slots: Option<Vec<u16>>,
    /// Whether 8-bit autotiling is on for this material.
    pub autotile: bool,
    /// Number of atlas columns (frame slots); frames beyond it fall back to 0.
    pub columns: Option<u32>,
    /// Whether this material's tiles are solid.
    pub solid: Option<bool>,
}

pub struct MaterialAutoTileRule {
    pub name: String,
    pub base_tile_id: u8,
    /// 256-entry lookup: 8-bit neighbour mask to atlas frame index.
    pub mask_to_frame: Vec<u16>,
}

pub struct PoolStatusResponse {
    pub pools: Vec<PoolInfo>,
}

pub struct PoolInfo {
    pub name: String,
    pub available: usize,
    pub active: usize,
}

pub struct InventoryActionRequest {
    pub action: String,
    pub item_id: Option<String>,
    pub count: u32,
}

pub struct CutscenePlayRequest {
    pub name: String,
}

pub struct CutsceneStateResponse {
    pub playing: bool,
    pub name: Option<String>,
    pub step_index: Option<usize>,
    pub total_steps: Option<usize>,
    pub defined_cutscenes: Vec<String>,
}

pub struct ScreenshotDiffRequest {
    pub baseline_path: Option<String>,
}

pub struct PlaytestRequest {
    pub frames: u32,
    pub mode: Option<String>,
    pub goal: Option<String>,
}

pub struct ImportResult {
    pub entities_spawned: usize,
    pub scripts_loaded: usize,
    pub scripts_failed: Vec<String>,
    pub config_applied: bool,
    pub tilemap_applied: bool,
    pub animation_graphs: usize,
    pub sprite_sheets: usize,
    pub warnings: Vec<String>,
}

pub struct AssetUploadRequest {
    pub name: String,
    pub data: String,
    pub asset_type: Option<String>,
}

pub struct AssetInfo {
    pub name: String,
    pub path: String,
    pub size_bytes: u64,
    pub width: Option<u32>,
    pub height: Option<u32>,
}

pub struct AssetGenerateRequest {
    pub name: String,
    pub width: u32,
    pub height: u32,
    pub color: [u8; 3],
    pub label: Option<String>,
    pub style: Option<String>,
}

pub struct EntityTagsRequest {
    pub add: Vec<String>,
    pub remove: Vec<String>,
}

pub struct BulkEntityFilter {
    pub tag: Option<String>,
    pub component: Option<String>,
    pub alive: Option<bool>,
    pub has_script: Option<bool>,
    pub entity_state: Option<String>,
    /// Explicit entity ids to target (overrides the other filters).
    pub ids: Option<Vec<u64>>,
}

pub struct BulkEntityResult {
    pub matched: usize,
    pub mutated: usize,
}

pub struct TilemapQueryResult {
    pub solid_tiles: Vec<TileQueryHit>,
    pub total_tiles: usize,
    pub solid_count: usize,
}

pub struct TileQueryHit {
    pub col: i32,
    pub row: i32,
    pub tile_id: u8,
    pub tile_type: String,
}

pub struct HealthCheckResult {
    pub status: String,
    pub has_player: bool,
    pub entity_count: usize,
    pub script_error_count: usize,
    pub game_state: String,
    pub game_vars_count: usize,
    pub tilemap_set: bool,
    pub issues: Vec<String>,
}

pub struct DiagnoseResult {
    pub entity_count: usize,
    pub issues_count: usize,
    pub entities: Vec<EntityDiagnosis>,
}

pub struct EntityDiagnosis {
    pub id: u64,
    pub tags: Vec<String>,
    pub issues: Vec<ComponentIssue>,
}

pub struct ComponentIssue {
    pub component: String,
    pub severity: String,
    pub message: String,
    pub missing: Vec<String>,
}

pub struct EvaluationResult {
    pub scores: EvaluationScores,
    pub issues: Vec<String>,
    pub overall: String,
}

pub struct EvaluationScores {
    pub has_player: bool,
    pub has_enemies: bool,
    pub has_scripts: bool,
    pub script_errors: usize,
    pub entity_count: usize,
    pub tile_variety: usize,
    pub has_goal: bool,
    pub game_vars_count: usize,
}

/// A screenshot has been requested and not yet taken.
pub struct PendingScreenshot(pub bool);

/// A configuration change waiting to be applied at the next update.
pub struct PendingPhysicsChange<C>(pub Option<C>);

/// Applies a waiting configuration change, if any, and clears it.
pub fn apply_physics_change<C>(pending: &mut PendingPhysicsChange<C>, physics: &mut C)
    ensures
        final(pending).0 is None,
        match old(pending).0 {
            Some(c) => *final(physics) == c,
            None => *final(physics) == *old(physics),
        },
{
    if let Some(new_config) = pending.0.take() {
        *physics = new_config;
    }
}

} // verus!
