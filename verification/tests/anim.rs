use axiom_core::anim::{
    animation_event_names, clip_frame_count, fallback_state, graph_info, resolve_clip_frame,
    list_graph_infos, select_motion_state, step_frame, AnimFrameEventDef, AnimationGraphInfo, FrameStep,
};

/// A clip as the frame stepper sees it.
struct Clip {
    frame_count: usize,
    looping: bool,
    next: Option<&'static str>,
    events: Vec<AnimFrameEventDef>,
}

/// The playing state of one animated entity.
struct Player {
    state: &'static str,
    frame: usize,
    playing: bool,
    emitted: Vec<(String, &'static str)>,
}

/// One elapsed frame time, as the animation system applies it.
fn tick(p: &mut Player, clips: &[(&'static str, &Clip)]) {
    if !p.playing {
        return;
    }
    let clip = clips.iter().find(|(n, _)| *n == p.state).unwrap().1;
    let len = clip_frame_count(0, clip.frame_count);
    let next_exists = clip.next.map_or(false, |n| clips.iter().any(|(m, _)| *m == n));
    match step_frame(p.frame, len, clip.looping, next_exists) {
        FrameStep::Advance(f) => {
            p.frame = f;
            for name in animation_event_names(&clip.events, f) {
                p.emitted.push((name, p.state));
            }
        }
        FrameStep::SwitchToNext => {
            p.state = clip.next.unwrap();
            p.frame = 0;
            let next = clips.iter().find(|(n, _)| *n == p.state).unwrap().1;
            for name in animation_event_names(&next.events, 0) {
                p.emitted.push((name, p.state));
            }
        }
        FrameStep::Stop(f) => {
            p.frame = f;
            p.playing = false;
        }
    }
}

#[test]
fn non_looping_clip_stops_at_last_frame() {
    let attack = Clip { frame_count: 3, looping: false, next: None, events: vec![] };
    let clips = [("attack", &attack)];
    let mut p = Player { state: "attack", frame: 0, playing: true, emitted: vec![] };
    for _ in 0..10 {
        tick(&mut p, &clips);
    }
    assert_eq!(p.frame, 2);
    assert!(!p.playing);
}

#[test]
fn non_looping_clip_transitions_to_next_and_emits_events() {
    let attack = Clip {
        frame_count: 2,
        looping: false,
        next: Some("idle"),
        events: vec![AnimFrameEventDef { frame: 1, event: "hitbox_on".to_string() }],
    };
    let idle = Clip { frame_count: 1, looping: true, next: None, events: vec![] };
    let clips = [("attack", &attack), ("idle", &idle)];
    let mut p = Player { state: "attack", frame: 0, playing: true, emitted: vec![] };
    for _ in 0..2 {
        tick(&mut p, &clips);
    }
    assert_eq!(p.state, "idle");
    assert!(p.playing);
    assert!(p.emitted.iter().any(|(name, state)| name == "anim:hitbox_on" && *state == "attack"));
}

#[test]
fn frame_steps_wrap_advance_and_stop() {
    assert_eq!(step_frame(3, 4, true, false), FrameStep::Advance(0));
    assert_eq!(step_frame(1, 4, true, false), FrameStep::Advance(2));
    assert_eq!(step_frame(1, 4, false, false), FrameStep::Advance(2));
    assert_eq!(step_frame(3, 4, false, false), FrameStep::Stop(3));
    assert_eq!(step_frame(3, 4, false, true), FrameStep::SwitchToNext);
    assert_eq!(step_frame(9, 4, false, false), FrameStep::Stop(3));
}

#[test]
fn clip_frames_resolve_through_the_frame_list() {
    assert_eq!(clip_frame_count(0, 0), 1);
    assert_eq!(clip_frame_count(0, 5), 5);
    assert_eq!(clip_frame_count(3, 9), 3);
    assert_eq!(resolve_clip_frame(&vec![], 4, 6), 2);
    assert_eq!(resolve_clip_frame(&vec![], 0, 6), 0);
    assert_eq!(resolve_clip_frame(&vec![7, 8, 9], 0, 4), 8);
}

#[test]
fn event_names_are_trimmed_and_prefixed() {
    let events = vec![
        AnimFrameEventDef { frame: 2, event: " step ".to_string() },
        AnimFrameEventDef { frame: 2, event: "anim:swing".to_string() },
        AnimFrameEventDef { frame: 2, event: "   ".to_string() },
        AnimFrameEventDef { frame: 3, event: "other".to_string() },
    ];
    assert_eq!(animation_event_names(&events, 2), vec!["anim:step", "anim:swing"]);
    assert_eq!(animation_event_names(&events, 0), Vec::<String>::new());
}

#[test]
fn motion_state_prefers_jump_fall_run_idle() {
    let all: Vec<String> = ["idle", "run", "jump", "fall"].iter().map(|s| s.to_string()).collect();
    assert_eq!(select_motion_state(true, false, true, &all, "idle"), "jump");
    assert_eq!(select_motion_state(false, true, true, &all, "idle"), "fall");
    assert_eq!(select_motion_state(false, false, true, &all, "idle"), "run");
    assert_eq!(select_motion_state(false, false, false, &all, "idle"), "idle");
    let few: Vec<String> = vec!["walk".to_string()];
    assert_eq!(select_motion_state(true, false, false, &few, "walk"), "walk");
}

#[test]
fn missing_state_falls_back_to_default_then_first() {
    let states: Vec<String> = vec!["b".to_string(), "a".to_string()];
    assert_eq!(fallback_state(&states, "a", "zzz"), Some("a".to_string()));
    assert_eq!(fallback_state(&states, "", "zzz"), Some("b".to_string()));
    assert_eq!(fallback_state(&states, "a", "b"), None);
    assert_eq!(fallback_state(&vec![], "a", "zzz"), None);
}

#[test]
fn graph_info_sorts_state_names() {
    let states: Vec<String> = vec!["run".to_string(), "idle".to_string(), "attack".to_string()];
    let info = graph_info("hero", &states, "idle");
    assert_eq!(info.name, "hero");
    assert_eq!(info.default_state, "idle");
    assert_eq!(info.states, vec!["attack", "idle", "run"]);
}

#[test]
fn graph_infos_are_listed_by_name() {
    let g = |name: &str, states: &[&str], d: &str| AnimationGraphInfo {
        name: name.to_string(),
        states: states.iter().map(|s| s.to_string()).collect(),
        default_state: d.to_string(),
    };
    let infos = list_graph_infos(&vec![
        g("slime", &["squish", "idle"], "idle"),
        g("bat", &["fly"], "fly"),
        g("knight", &["run", "attack", "idle"], "idle"),
    ]);
    let names: Vec<&str> = infos.iter().map(|i| i.name.as_str()).collect();
    assert_eq!(names, vec!["bat", "knight", "slime"]);
    assert_eq!(infos[1].states, vec!["attack", "idle", "run"]);
    assert_eq!(infos[2].states, vec!["idle", "squish"]);
    assert_eq!(infos[2].default_state, "idle");
    assert!(list_graph_infos(&vec![]).is_empty());
}

#[test]
fn builtin_animation_graphs_define_actor_states() {
    let graphs = axiom_core::anim::builtin_animation_graphs();
    assert_eq!(graphs.len(), 2);
    assert_eq!(graphs[0].name, "basic_actor");
    let basic: Vec<(&str, usize)> = graphs[0].clips.iter().map(|c| (c.state, c.frame_count)).collect();
    assert_eq!(basic, vec![("idle", 1), ("run", 6)]);
    let samurai = &graphs[1];
    assert_eq!(samurai.name, "samurai_player");
    assert_eq!(samurai.default_state, "idle");
    let attack = samurai.clips.iter().find(|c| c.state == "attack").expect("attack clip");
    assert_eq!(attack.frame_count, 7);
    assert_eq!(attack.fps, 15);
    assert!(!attack.looping);
    assert_eq!(attack.next, Some("idle"));
    for g in &graphs {
        assert!(g.clips.iter().any(|c| c.state == g.default_state));
        for c in &g.clips {
            if let Some(n) = c.next {
                assert!(g.clips.iter().any(|d| d.state == n));
            }
        }
    }
}
