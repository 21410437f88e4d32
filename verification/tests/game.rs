use axiom_core::ai::{
    ai_behavior_kind_name, ai_decide, ai_state_name, ai_state_target_id, ai_state_to_save,
    save_ai_state_to_runtime, AiObservation, AiState, BehaviorKind, FollowerOrder,
};
use axiom_core::tiles::{build_tile_summary, tile_type_name};

fn obs() -> AiObservation {
    AiObservation {
        waypoint_count: 0,
        at_current_waypoint: false,
        nearest: None,
        beyond_give_up: false,
        threat_within_give_up: false,
        outside_guard_radius: false,
        pause_frames: 30,
    }
}

#[test]
fn patrol_cycles_through_waypoints() {
    let o = AiObservation { waypoint_count: 3, at_current_waypoint: true, ..obs() };
    let mut state = AiState::Idle;
    let mut seen = vec![];
    for _ in 0..4 {
        let d = ai_decide(BehaviorKind::Patrol, &state, &o);
        match d.order {
            FollowerOrder::SeekWaypoint(i) => seen.push(i),
            _ => panic!("a patrol always seeks a waypoint"),
        }
        state = d.state;
    }
    assert_eq!(seen, vec![1, 2, 0, 1]);
    // Not yet at the waypoint: keep heading for it; a stale index wraps.
    let o = AiObservation { waypoint_count: 3, ..obs() };
    let d = ai_decide(BehaviorKind::Patrol, &AiState::Patrolling { waypoint_index: 7 }, &o);
    assert_eq!(d.state, AiState::Patrolling { waypoint_index: 1 });
    assert_eq!(d.order, FollowerOrder::SeekWaypoint(1));
    // An empty route changes nothing.
    let d = ai_decide(BehaviorKind::Patrol, &AiState::Returning, &obs());
    assert_eq!(d.state, AiState::Returning);
    assert_eq!(d.order, FollowerOrder::Keep);
}

#[test]
fn chase_follows_target_and_gives_up_when_far() {
    let seen = AiObservation { nearest: Some(9), ..obs() };
    let d = ai_decide(BehaviorKind::Chase, &AiState::Idle, &seen);
    assert_eq!(d.state, AiState::Chasing { target_id: 9 });
    assert_eq!(d.order, FollowerOrder::SeekTarget);
    let lost_far = AiObservation { beyond_give_up: true, ..obs() };
    let d = ai_decide(BehaviorKind::Chase, &AiState::Chasing { target_id: 9 }, &lost_far);
    assert_eq!(d.state, AiState::Idle);
    assert_eq!(d.order, FollowerOrder::ClearPath);
    let d = ai_decide(BehaviorKind::Chase, &AiState::Chasing { target_id: 9 }, &obs());
    assert_eq!(d.state, AiState::Chasing { target_id: 9 });
    assert_eq!(d.order, FollowerOrder::Keep);
}

#[test]
fn flee_and_guard_react_to_threats() {
    let seen = AiObservation { nearest: Some(4), ..obs() };
    let d = ai_decide(BehaviorKind::Flee, &AiState::Idle, &seen);
    assert_eq!(d.state, AiState::Fleeing { threat_id: 4 });
    assert_eq!(d.order, FollowerOrder::FleeFromThreat);
    let d = ai_decide(BehaviorKind::Flee, &AiState::Fleeing { threat_id: 4 }, &obs());
    assert_eq!(d.state, AiState::Idle);
    let near = AiObservation { threat_within_give_up: true, ..obs() };
    let d = ai_decide(BehaviorKind::Flee, &AiState::Fleeing { threat_id: 4 }, &near);
    assert_eq!(d.state, AiState::Fleeing { threat_id: 4 });

    let d = ai_decide(BehaviorKind::Guard, &AiState::Idle, &seen);
    assert_eq!(d.state, AiState::Chasing { target_id: 4 });
    let away = AiObservation { outside_guard_radius: true, ..obs() };
    let d = ai_decide(BehaviorKind::Guard, &AiState::Chasing { target_id: 4 }, &away);
    assert_eq!(d.state, AiState::Returning);
    assert_eq!(d.order, FollowerOrder::ReturnToPost);
    let d = ai_decide(BehaviorKind::Guard, &AiState::Returning, &obs());
    assert_eq!(d.state, AiState::Idle);
    assert_eq!(d.order, FollowerOrder::ClearPath);
}

#[test]
fn wander_pauses_between_moves() {
    let o = AiObservation { pause_frames: 2, ..obs() };
    let mut state = AiState::Idle;
    let mut orders = vec![];
    for _ in 0..7 {
        let d = ai_decide(BehaviorKind::Wander, &state, &o);
        orders.push(d.order);
        state = d.state;
    }
    let (m, p) = (FollowerOrder::WanderToNewPoint, FollowerOrder::ClearPath);
    assert_eq!(orders, vec![m, p, p, m, p, p, m]);
    let d = ai_decide(BehaviorKind::Custom, &AiState::Wandering { pause_frames: 3 }, &o);
    assert_eq!(d.state, AiState::Wandering { pause_frames: 3 });
    assert_eq!(d.order, FollowerOrder::Keep);
}

#[test]
fn ai_state_save_roundtrip_and_names() {
    let states = [
        AiState::Idle,
        AiState::Patrolling { waypoint_index: 2 },
        AiState::Chasing { target_id: 5 },
        AiState::Fleeing { threat_id: 6 },
        AiState::Attacking { target_id: 7 },
        AiState::Returning,
        AiState::Wandering { pause_frames: 8 },
    ];
    let names = ["idle", "patrolling", "chasing", "fleeing", "attacking", "returning", "wandering"];
    let targets = [None, None, Some(5), Some(6), Some(7), None, None];
    for i in 0..states.len() {
        assert_eq!(save_ai_state_to_runtime(&ai_state_to_save(&states[i])), states[i]);
        assert_eq!(ai_state_name(&states[i]), names[i]);
        assert_eq!(ai_state_target_id(&states[i]), targets[i]);
    }
    assert_eq!(ai_behavior_kind_name(BehaviorKind::Guard), "guard");
    assert_eq!(ai_behavior_kind_name(BehaviorKind::Custom), "custom");
}

#[test]
fn tile_names_and_summary_counts() {
    assert_eq!(tile_type_name(0), "empty");
    assert_eq!(tile_type_name(5), "slope_up");
    assert_eq!(tile_type_name(7), "ladder");
    assert_eq!(tile_type_name(8), "unknown");
    let s = build_tile_summary(&vec![0, 0, 1, 2, 3, 4, 5, 6, 7, 7, 9, 1]);
    assert_eq!(
        (s.empty, s.solid, s.spike, s.goal, s.platform, s.slope_up, s.slope_down, s.ladder),
        (2, 2, 1, 1, 1, 1, 1, 2)
    );
}
