use axiom_core::api_types::InventoryActionRequest;
use axiom_core::flow::{
    level_pack_next_step, normalize_effect, parse_inventory_action, parse_volume_channel,
    plan_runtime_transition, push_bounded, validate_level_pack, InventoryOp, LevelOverrides, PackStep,
    VolumeChannel, MAX_AUDIO_EVENTS,
};

fn req(action: &str, item: Option<&str>, count: u32) -> InventoryActionRequest {
    InventoryActionRequest { action: action.to_string(), item_id: item.map(|s| s.to_string()), count }
}

#[test]
fn invalid_channel_rejected() {
    let err = parse_volume_channel("invalid").expect_err("invalid channel should fail");
    assert!(err.contains("Unknown volume channel"));
    assert_eq!(err, "Unknown volume channel: invalid");
}

#[test]
fn volume_channels_are_recognised() {
    assert_eq!(parse_volume_channel("master"), Ok(VolumeChannel::Master));
    assert_eq!(parse_volume_channel("sfx"), Ok(VolumeChannel::Sfx));
    assert_eq!(parse_volume_channel("music"), Ok(VolumeChannel::Music));
    assert!(parse_volume_channel("Music").is_err());
}

#[test]
fn inventory_actions_parse_and_report_errors() {
    match parse_inventory_action(&req("add", Some("coin"), 3)) {
        Ok(InventoryOp::Add { item_id, count }) => {
            assert_eq!(item_id, "coin");
            assert_eq!(count, 3);
        }
        _ => panic!("add should parse"),
    }
    match parse_inventory_action(&req("remove", Some("key"), 1)) {
        Ok(InventoryOp::Remove { item_id, count }) => {
            assert_eq!(item_id, "key");
            assert_eq!(count, 1);
        }
        _ => panic!("remove should parse"),
    }
    assert!(matches!(parse_inventory_action(&req("clear", None, 1)), Ok(InventoryOp::Clear)));
    assert_eq!(
        parse_inventory_action(&req("add", None, 1)).err().unwrap(),
        "item_id required for add"
    );
    assert_eq!(
        parse_inventory_action(&req("remove", None, 1)).err().unwrap(),
        "item_id required for remove"
    );
    assert_eq!(
        parse_inventory_action(&req("drop", Some("x"), 1)).err().unwrap(),
        "Unknown inventory action: drop"
    );
}

#[test]
fn transition_effect_defaults_and_animation() {
    let p = plan_runtime_transition("Playing", "Paused", None, true);
    assert_eq!(p.from, "Playing");
    assert_eq!(p.to, "Paused");
    assert_eq!(p.effect, "Instant");
    assert!(!p.animated);
    let p = plan_runtime_transition("Playing", "Menu", Some("  FadeBlack ".to_string()), true);
    assert_eq!(p.effect, "FadeBlack");
    assert!(p.animated);
    let p = plan_runtime_transition("Playing", "Menu", Some("FadeBlack".to_string()), false);
    assert!(!p.animated);
    let p = plan_runtime_transition("Playing", "Menu", Some("INSTANT".to_string()), true);
    assert_eq!(p.effect, "INSTANT");
    assert!(!p.animated);
    assert_eq!(normalize_effect(Some("   ".to_string())), None);
    assert_eq!(normalize_effect(Some(" Wipe".to_string())), Some("Wipe".to_string()));
}

#[test]
fn level_pack_steps_through_levels_in_order() {
    assert_eq!(level_pack_next_step(0, false, 3), PackStep::Advance { finished_level: 0, next_level: 1 });
    assert_eq!(level_pack_next_step(1, false, 3), PackStep::Advance { finished_level: 1, next_level: 2 });
    assert_eq!(level_pack_next_step(2, false, 3), PackStep::Finished { finished_level: 2 });
    assert_eq!(level_pack_next_step(7, false, 3), PackStep::Finished { finished_level: 2 });
    assert_eq!(level_pack_next_step(2, true, 3), PackStep::AlreadyComplete);
    assert_eq!(level_pack_next_step(0, false, 0), PackStep::AlreadyComplete);
    // Playing a pack of three from the start: levels 0, 1, 2, then done.
    let (mut level, mut done) = (0usize, false);
    let mut played = vec![];
    while !done {
        played.push(level);
        match level_pack_next_step(level, done, 3) {
            PackStep::Advance { next_level, .. } => level = next_level,
            PackStep::Finished { .. } => done = true,
            PackStep::AlreadyComplete => unreachable!(),
        }
    }
    assert_eq!(played, vec![0, 1, 2]);
}

#[test]
fn level_pack_validation_errors() {
    let t = |v: &[&str]| v.iter().map(|s| s.to_string()).collect::<Vec<_>>();
    assert_eq!(
        validate_level_pack("  ", &t(&["a"]), &vec![LevelOverrides::Null]).unwrap_err(),
        "Level pack name cannot be empty"
    );
    assert_eq!(
        validate_level_pack("pack", &vec![], &vec![]).unwrap_err(),
        "Level pack must contain at least one level"
    );
    assert_eq!(
        validate_level_pack("pack", &t(&["a", " "]), &vec![LevelOverrides::Null, LevelOverrides::Null])
            .unwrap_err(),
        "Each level must provide a non-empty template"
    );
    assert_eq!(
        validate_level_pack("pack", &t(&["a", "b"]), &vec![LevelOverrides::Object, LevelOverrides::Other])
            .unwrap_err(),
        "config_overrides must be an object"
    );
    assert_eq!(
        validate_level_pack(" pack ", &t(&["a", "b"]), &vec![LevelOverrides::Object, LevelOverrides::Null])
            .unwrap(),
        "pack"
    );
}

#[test]
fn bounded_log_keeps_most_recent() {
    let mut log: Vec<u32> = Vec::new();
    for i in 0..300u32 {
        push_bounded(&mut log, i, MAX_AUDIO_EVENTS);
    }
    assert_eq!(log.len(), 256);
    assert_eq!(log[0], 44);
    assert_eq!(*log.last().unwrap(), 299);
    let mut small = vec![1, 2];
    push_bounded(&mut small, 3, 5);
    assert_eq!(small, vec![1, 2, 3]);
}
