//! The state of an AI-driven actor, its saved form, and the names reported for
//! it.
use vstd::prelude::*;
use crate::text::owned;

verus! {

/// What an AI behaviour is doing.
#[derive(PartialEq, Eq, Structural, Clone, Copy, Debug)]
pub enum AiState {
    Idle,
    Patrolling { waypoint_index: usize },
    Chasing { target_id: u64 },
    Fleeing { threat_id: u64 },
    Attacking { target_id: u64 },
    Returning,
    Wandering { pause_frames: u32 },
}

/// The saved form of an [`AiState`].
#[derive(PartialEq, Eq, Structural, Clone, Copy, Debug)]
pub enum SaveAiState {
    Idle,
    Patrolling { waypoint_index: usize },
    Chasing { target_id: u64 },
    Fleeing { threat_id: u64 },
    Attacking { target_id: u64 },
    Returning,
    Wandering { pause_frames: u32 },
}

/// The kind of an AI behaviour, without its tuning parameters.
#[derive(PartialEq, Eq, Structural, Clone, Copy, Debug)]
pub enum BehaviorKind {
    Patrol,
    Chase,
    Flee,
    Guard,
    Wander,
    Custom,
}

pub open spec fn to_save_spec(s: AiState) -> SaveAiState {
    match s {
        AiState::Idle => SaveAiState::Idle,
        AiState::Patrolling { waypoint_index } => SaveAiState::Patrolling { waypoint_index },
        AiState::Chasing { target_id } => SaveAiState::Chasing { target_id },
        AiState::Fleeing { threat_id } => SaveAiState::Fleeing { threat_id },
        AiState::Attacking { target_id } => SaveAiState::Attacking { target_id },
        AiState::Returning => SaveAiState::Returning,
        AiState::Wandering { pause_frames } => SaveAiState::Wandering { pause_frames },
    }
}

pub open spec fn from_save_spec(s: SaveAiState) -> AiState {
    match s {
        SaveAiState::Idle => AiState::Idle,
        SaveAiState::Patrolling { waypoint_index } => AiState::Patrolling { waypoint_index },
        SaveAiState::Chasing { target_id } => AiState::Chasing { target_id },
        SaveAiState::Fleeing { threat_id } => AiState::Fleeing { threat_id },
        SaveAiState::Attacking { target_id } => AiState::Attacking { target_id },
        SaveAiState::Returning => AiState::Returning,
        SaveAiState::Wandering { pause_frames } => AiState::Wandering { pause_frames },
    }
}

/// The saved form of a runtime AI state, variant for variant.
pub fn ai_state_to_save(state: &AiState) -> (r: SaveAiState)
    ensures
        r == to_save_spec(*state),
{
    match state {
        AiState::Idle => SaveAiState::Idle,
        AiState::Patrolling { waypoint_index } => SaveAiState::Patrolling {
            waypoint_index: *waypoint_index,
        },
        AiState::Chasing { target_id } => SaveAiState::Chasing { target_id: *target_id },
        AiState::Fleeing { threat_id } => SaveAiState::Fleeing { threat_id: *threat_id },
        AiState::Attacking { target_id } => SaveAiState::Attacking { target_id: *target_id },
        AiState::Returning => SaveAiState::Returning,
        AiState::Wandering { pause_frames } => SaveAiState::Wandering {
            pause_frames: *pause_frames,
        },
    }
}

/// The runtime AI state a saved one restores to, variant for variant.
pub fn save_ai_state_to_runtime(state: &SaveAiState) -> (r: AiState)
    ensures
        r == from_save_spec(*state),
{
    match state {
        SaveAiState::Idle => AiState::Idle,
        SaveAiState::Patrolling { waypoint_index } => AiState::Patrolling {
            waypoint_index: *waypoint_index,
        },
        SaveAiState::Chasing { target_id } => AiState::Chasing { target_id: *target_id },
        SaveAiState::Fleeing { threat_id } => AiState::Fleeing { threat_id: *threat_id },
        SaveAiState::Attacking { target_id } => AiState::Attacking { target_id: *target_id },
        SaveAiState::Returning => AiState::Returning,
        SaveAiState::Wandering { pause_frames } => AiState::Wandering {
            pause_frames: *pause_frames,
        },
    }
}

/// Saving an AI state and restoring it gives the same state back, and
/// restoring a saved state and saving it again gives the same saved state.
pub proof fn lemma_ai_state_save_roundtrip(s: AiState, t: SaveAiState)
    ensures
        from_save_spec(to_save_spec(s)) == s,
        to_save_spec(from_save_spec(t)) == t,
{
}

pub open spec fn behavior_kind_name_spec(k: BehaviorKind) -> Seq<char> {
    match k {
        BehaviorKind::Patrol => "patrol"@,
        BehaviorKind::Chase => "chase"@,
        BehaviorKind::Flee => "flee"@,
        BehaviorKind::Guard => "guard"@,
        BehaviorKind::Wander => "wander"@,
        BehaviorKind::Custom => "custom"@,
    }
}

/// The reported name of a behaviour kind.
pub fn ai_behavior_kind_name(kind: BehaviorKind) -> (r: String)
    ensures
        r@ == behavior_kind_name_spec(kind),
{
    match kind {
        BehaviorKind::Patrol => owned("patrol"),
        BehaviorKind::Chase => owned("chase"),
        BehaviorKind::Flee => owned("flee"),
        BehaviorKind::Guard => owned("guard"),
        BehaviorKind::Wander => owned("wander"),
        BehaviorKind::Custom => owned("custom"),
    }
}

pub open spec fn ai_state_name_spec(s: AiState) -> Seq<char> {
    match s {
        AiState::Idle => "idle"@,
        AiState::Patrolling { .. } => "patrolling"@,
        AiState::Chasing { .. } => "chasing"@,
        AiState::Fleeing { .. } => "fleeing"@,
        AiState::Attacking { .. } => "attacking"@,
        AiState::Returning => "returning"@,
        AiState::Wandering { .. } => "wandering"@,
    }
}

/// The reported name of an AI state.
pub fn ai_state_name(state: &AiState) -> (r: String)
    ensures
        r@ == ai_state_name_spec(*state),
{
    match state {
        AiState::Idle => owned("idle"),
        AiState::Patrolling { .. } => owned("patrolling"),
        AiState::Chasing { .. } => owned("chasing"),
        AiState::Fleeing { .. } => owned("fleeing"),
        AiState::Attacking { .. } => owned("attacking"),
        AiState::Returning => owned("returning"),
        AiState::Wandering { .. } => owned("wandering"),
    }
}

/// The entity an AI state is directed at: the chased, fled-from or attacked
/// entity; `None` in the other states.
pub fn ai_state_target_id(state: &AiState) -> (r: Option<u64>)
    ensures
        r == (match *state {
            AiState::Chasing { target_id } => Some(target_id),
            AiState::Fleeing { threat_id } => Some(threat_id),
            AiState::Attacking { target_id } => Some(target_id),
            _ => None,
        }),
{
    match state {
        AiState::Chasing { target_id } => Some(*target_id),
        AiState::Fleeing { threat_id } => Some(*threat_id),
        AiState::Attacking { target_id } => Some(*target_id),
        _ => None,
    }
}

/// What the engine observed for an AI-driven actor this frame, as far as its
/// behaviour needs it.
pub struct AiObservation {
    /// Patrol: how many waypoints the route has.
    pub waypoint_count: usize,
    /// Patrol: whether the actor is within reach of its current waypoint.
    pub at_current_waypoint: bool,
    /// Chase, flee, guard: the nearest entity with the behaviour's tag within
    /// its detection (guard: chase) radius, and in sight when sight is required.
    pub nearest: Option<u64>,
    /// Chase: whether the actor is farther than its give-up radius from the
    /// point it was heading for.
    pub beyond_give_up: bool,
    /// Flee: whether a threat is still within the give-up radius.
    pub threat_within_give_up: bool,
    /// Guard: whether the actor is farther from its post than the guard radius.
    pub outside_guard_radius: bool,
    /// Wander: the pause configured between two moves.
    pub pause_frames: u32,
}

/// What the actor's path follower is told to do.
#[derive(PartialEq, Eq, Structural, Clone, Copy, Debug)]
pub enum FollowerOrder {
    /// Leave it as it is.
    Keep,
    /// Drop the current path.
    ClearPath,
    /// Head for this waypoint, planning as a platformer.
    SeekWaypoint(usize),
    /// Head for the observed target, planning top-down.
    SeekTarget,
    /// Head away from the observed threat, planning top-down.
    FleeFromThreat,
    /// Head back to the guard post, planning top-down.
    ReturnToPost,
    /// Head for a new wander point, planning top-down.
    WanderToNewPoint,
}

/// The state and follower order after one frame.
#[derive(PartialEq, Eq, Structural, Clone, Copy, Debug)]
pub struct AiDecision {
    pub state: AiState,
    pub order: FollowerOrder,
}

/// The waypoint a patrol is heading for: its recorded index modulo the route
/// length when patrolling, else the first.
pub open spec fn patrol_index_spec(state: AiState, n: usize) -> usize {
    match state {
        AiState::Patrolling { waypoint_index } => (waypoint_index % n) as usize,
        _ => 0,
    }
}

/// The waypoint a patrol is heading for.
pub fn patrol_current_index(state: &AiState, waypoint_count: usize) -> (r: usize)
    requires
        waypoint_count > 0,
    ensures
        r == patrol_index_spec(*state, waypoint_count),
        r < waypoint_count,
{
    match state {
        AiState::Patrolling { waypoint_index } => *waypoint_index % waypoint_count,
        _ => 0,
    }
}

/// One frame of an AI behaviour.
pub open spec fn ai_decide_spec(kind: BehaviorKind, state: AiState, obs: AiObservation) -> AiDecision {
    match kind {
        BehaviorKind::Patrol => if obs.waypoint_count == 0 {
            AiDecision { state, order: FollowerOrder::Keep }
        } else {
            let idx = patrol_index_spec(state, obs.waypoint_count);
            let next = if obs.at_current_waypoint {
                ((idx + 1) % (obs.waypoint_count as int)) as usize
            } else {
                idx
            };
            AiDecision {
                state: AiState::Patrolling { waypoint_index: next },
                order: FollowerOrder::SeekWaypoint(next),
            }
        },
        BehaviorKind::Chase => match obs.nearest {
            Some(t) => AiDecision { state: AiState::Chasing { target_id: t }, order: FollowerOrder::SeekTarget },
            None => if (state is Chasing) && obs.beyond_give_up {
                AiDecision { state: AiState::Idle, order: FollowerOrder::ClearPath }
            } else {
                AiDecision { state, order: FollowerOrder::Keep }
            },
        },
        BehaviorKind::Flee => match obs.nearest {
            Some(t) => AiDecision {
                state: AiState::Fleeing { threat_id: t },
                order: FollowerOrder::FleeFromThreat,
            },
            None => if (state is Fleeing) && !obs.threat_within_give_up {
                AiDecision { state: AiState::Idle, order: FollowerOrder::ClearPath }
            } else {
                AiDecision { state, order: FollowerOrder::Keep }
            },
        },
        BehaviorKind::Guard => match obs.nearest {
            Some(t) => AiDecision { state: AiState::Chasing { target_id: t }, order: FollowerOrder::SeekTarget },
            None => if obs.outside_guard_radius {
                AiDecision { state: AiState::Returning, order: FollowerOrder::ReturnToPost }
            } else {
                AiDecision { state: AiState::Idle, order: FollowerOrder::ClearPath }
            },
        },
        BehaviorKind::Wander => match state {
            AiState::Wandering { pause_frames } => if pause_frames > 0 {
                AiDecision {
                    state: AiState::Wandering { pause_frames: (pause_frames - 1) as u32 },
                    order: FollowerOrder::ClearPath,
                }
            } else {
                AiDecision {
                    state: AiState::Wandering { pause_frames: obs.pause_frames },
                    order: FollowerOrder::WanderToNewPoint,
                }
            },
            _ => AiDecision {
                state: AiState::Wandering { pause_frames: obs.pause_frames },
                order: FollowerOrder::WanderToNewPoint,
            },
        },
        BehaviorKind::Custom => AiDecision { state, order: FollowerOrder::Keep },
    }
}

/// One frame of an AI behaviour: patrols cycle through their waypoints, chasers
/// and guards pursue the nearest target, fleers run from the nearest threat,
/// each giving up (or a guard returning to its post) when nothing is seen, and
/// wanderers alternate between a pause and a move to a new point.
pub fn ai_decide(kind: BehaviorKind, state: &AiState, obs: &AiObservation) -> (r: AiDecision)
    ensures
        r == ai_decide_spec(kind, *state, *obs),
{
    match kind {
        BehaviorKind::Patrol => {
            if obs.waypoint_count == 0 {
                return AiDecision { state: *state, order: FollowerOrder::Keep };
            }
            let idx = patrol_current_index(state, obs.waypoint_count);
            let next = if obs.at_current_waypoint {
                (idx + 1) % obs.waypoint_count
            } else {
                idx
            };
            AiDecision {
                state: AiState::Patrolling { waypoint_index: next },
                order: FollowerOrder::SeekWaypoint(next),
            }
        },
        BehaviorKind::Chase => match obs.nearest {
            Some(t) => AiDecision { state: AiState::Chasing { target_id: t }, order: FollowerOrder::SeekTarget },
            None => {
                let chasing = match state {
                    AiState::Chasing { .. } => true,
                    _ => false,
                };
                if chasing && obs.beyond_give_up {
                    AiDecision { state: AiState::Idle, order: FollowerOrder::ClearPath }
                } else {
                    AiDecision { state: *state, order: FollowerOrder::Keep }
                }
            },
        },
        BehaviorKind::Flee => match obs.nearest {
            Some(t) => AiDecision {
                state: AiState::Fleeing { threat_id: t },
                order: FollowerOrder::FleeFromThreat,
            },
            None => {
                let fleeing = match state {
                    AiState::Fleeing { .. } => true,
                    _ => false,
                };
                if fleeing && !obs.threat_within_give_up {
                    AiDecision { state: AiState::Idle, order: FollowerOrder::ClearPath }
                } else {
                    AiDecision { state: *state, order: FollowerOrder::Keep }
                }
            },
        },
        BehaviorKind::Guard => match obs.nearest {
            Some(t) => AiDecision { state: AiState::Chasing { target_id: t }, order: FollowerOrder::SeekTarget },
            None => if obs.outside_guard_radius {
                AiDecision { state: AiState::Returning, order: FollowerOrder::ReturnToPost }
            } else {
                AiDecision { state: AiState::Idle, order: FollowerOrder::ClearPath }
            },
        },
        BehaviorKind::Wander => match state {
            AiState::Wandering { pause_frames } => {
                if *pause_frames > 0 {
                    AiDecision {
                        state: AiState::Wandering { pause_frames: *pause_frames - 1 },
                        order: FollowerOrder::ClearPath,
                    }
                } else {
                    AiDecision {
                        state: AiState::Wandering { pause_frames: obs.pause_frames },
                        order: FollowerOrder::WanderToNewPoint,
                    }
                }
            },
            _ => AiDecision {
                state: AiState::Wandering { pause_frames: obs.pause_frames },
                order: FollowerOrder::WanderToNewPoint,
            },
        },
        BehaviorKind::Custom => AiDecision { state: *state, order: FollowerOrder::Keep },
    }
}

/// A patrol stays on its route: the waypoint it heads for is always one of
/// the route's.
pub proof fn lemma_patrol_index_in_route(state: AiState, obs: AiObservation)
    requires
        obs.waypoint_count > 0,
    ensures
        (ai_decide_spec(BehaviorKind::Patrol, state, obs).order matches FollowerOrder::SeekWaypoint(i)
            && i < obs.waypoint_count),
{
}

/// A wandering actor pauses for exactly the configured number of frames
/// between two moves: from a fresh move with `p` pause frames it holds still
/// for `p` frames and then moves again.
pub proof fn lemma_wander_pause_length(p: u32, obs: AiObservation, k: nat)
    requires
        obs.pause_frames == p,
        k <= p,
    ensures
        wander_after((AiState::Wandering { pause_frames: p }), obs, k) == (AiState::Wandering {
            pause_frames: (p - k) as u32,
        }),
        k == p ==> ai_decide_spec(
            BehaviorKind::Wander,
            wander_after((AiState::Wandering { pause_frames: p }), obs, k),
            obs,
        ).order == FollowerOrder::WanderToNewPoint,
        k < p ==> ai_decide_spec(
            BehaviorKind::Wander,
            wander_after((AiState::Wandering { pause_frames: p }), obs, k),
            obs,
        ).order == FollowerOrder::ClearPath,
    decreases k,
{
    if k > 0 {
        lemma_wander_pause_length(p, obs, (k - 1) as nat);
    }
}

/// The wander state after `k` frames.
pub open spec fn wander_after(state: AiState, obs: AiObservation, k: nat) -> AiState
    decreases k,
{
    if k == 0 {
        state
    } else {
        ai_decide_spec(BehaviorKind::Wander, wander_after(state, obs, (k - 1) as nat), obs).state
    }
}

/// A guard that sees a target pursues it exactly as a chaser would: it
/// chases that target and its follower heads for it.
pub proof fn lemma_guard_pursues_seen_target(state: AiState, obs: AiObservation, t: u64)
    requires
        obs.nearest == Some(t),
    ensures
        ai_decide_spec(BehaviorKind::Guard, state, obs) == ai_decide_spec(BehaviorKind::Chase, state, obs),
        ai_decide_spec(BehaviorKind::Guard, state, obs).state == (AiState::Chasing { target_id: t }),
        ai_decide_spec(BehaviorKind::Guard, state, obs).order == FollowerOrder::SeekTarget,
{
}

/// Only a guard is ever sent back to its post, and only when it sees nothing
/// and stands outside its guard radius; a guard in that situation always is.
pub proof fn lemma_return_to_post_only_when_unguarded(kind: BehaviorKind, state: AiState, obs: AiObservation)
    ensures
        ai_decide_spec(kind, state, obs).order == FollowerOrder::ReturnToPost <==> (kind == BehaviorKind::Guard
            && obs.nearest is None && obs.outside_guard_radius),
{
}

/// A chaser or a fleer that sees someone reacts to that one: the chaser
/// chases and seeks it, the fleer flees from it.
pub proof fn lemma_seen_target_is_acted_on(state: AiState, obs: AiObservation, t: u64)
    requires
        obs.nearest == Some(t),
    ensures
        ai_decide_spec(BehaviorKind::Chase, state, obs) == (AiDecision {
            state: AiState::Chasing { target_id: t },
            order: FollowerOrder::SeekTarget,
        }),
        ai_decide_spec(BehaviorKind::Flee, state, obs) == (AiDecision {
            state: AiState::Fleeing { threat_id: t },
            order: FollowerOrder::FleeFromThreat,
        }),
{
}

/// A patrol with waypoints always heads for one of them: it keeps its
/// current waypoint until it reaches it, then moves on to the next one,
/// wrapping round after the last; a route without waypoints changes nothing.
pub proof fn lemma_patrol_walks_its_route(state: AiState, obs: AiObservation, i: usize)
    ensures
        obs.waypoint_count == 0 ==> ai_decide_spec(BehaviorKind::Patrol, state, obs) == (AiDecision {
            state,
            order: FollowerOrder::Keep,
        }),
        obs.waypoint_count > 0 ==> ({
            let d = ai_decide_spec(BehaviorKind::Patrol, state, obs);
            &&& d.state matches AiState::Patrolling { waypoint_index: w } && w < obs.waypoint_count
                && d.order == FollowerOrder::SeekWaypoint(w)
        }),
        obs.waypoint_count > 0 && i < obs.waypoint_count && state == (AiState::Patrolling { waypoint_index: i })
            ==> ai_decide_spec(BehaviorKind::Patrol, state, obs).state == (AiState::Patrolling {
            waypoint_index: if !obs.at_current_waypoint {
                i
            } else if i + 1 < obs.waypoint_count {
                (i + 1) as usize
            } else {
                0
            },
        }),
{
    if obs.waypoint_count > 0 && i < obs.waypoint_count {
        let n = obs.waypoint_count as nat;
        vstd::arithmetic::div_mod::lemma_small_mod(i as nat, n);
        if i + 1 < n {
            vstd::arithmetic::div_mod::lemma_small_mod((i + 1) as nat, n);
        } else {
            assert(((i + 1) as int) % (n as int) == 0) by (nonlinear_arith)
                requires
                    i + 1 == n,
                    n > 0,
            ;
        }
    }
}

/// With nothing in sight a chaser keeps what it was doing unless it was
/// chasing and has gone past its give-up radius, in which case it stops and
/// drops its path; a fleer likewise stops only once no threat is near.
pub proof fn lemma_nothing_seen(state: AiState, obs: AiObservation)
    requires
        obs.nearest is None,
    ensures
        ai_decide_spec(BehaviorKind::Chase, state, obs) == (if (state is Chasing) && obs.beyond_give_up {
            AiDecision { state: AiState::Idle, order: FollowerOrder::ClearPath }
        } else {
            AiDecision { state, order: FollowerOrder::Keep }
        }),
        ai_decide_spec(BehaviorKind::Flee, state, obs) == (if (state is Fleeing) && !obs.threat_within_give_up {
            AiDecision { state: AiState::Idle, order: FollowerOrder::ClearPath }
        } else {
            AiDecision { state, order: FollowerOrder::Keep }
        }),
        ai_decide_spec(BehaviorKind::Guard, state, obs).state == (if obs.outside_guard_radius {
            AiState::Returning
        } else {
            AiState::Idle
        }),
{
}

/// A wanderer waits out its pause one frame at a time, dropping its path,
/// and once the pause is over (or when it was not wandering) heads for a new
/// point and starts a fresh pause.
pub proof fn lemma_wander_pauses_then_moves(state: AiState, obs: AiObservation)
    ensures
        ({
            let d = ai_decide_spec(BehaviorKind::Wander, state, obs);
            match state {
                AiState::Wandering { pause_frames } => if pause_frames > 0 {
                    d.state == (AiState::Wandering { pause_frames: (pause_frames - 1) as u32 }) && d.order
                        == FollowerOrder::ClearPath
                } else {
                    d.state == (AiState::Wandering { pause_frames: obs.pause_frames }) && d.order
                        == FollowerOrder::WanderToNewPoint
                },
                _ => d.state == (AiState::Wandering { pause_frames: obs.pause_frames }) && d.order
                    == FollowerOrder::WanderToNewPoint,
            }
        }),
{
}

} // verus!
