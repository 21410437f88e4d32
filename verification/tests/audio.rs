use axiom_core::audio::{audio_command, AudioCommand, AudioRegistry};

fn names(v: &[&str]) -> Vec<String> {
    v.iter().map(|s| s.to_string()).collect()
}

#[test]
fn music_tracks_play_stop_and_survive_redefinition() {
    let mut a = AudioRegistry::new();
    a.set_music(names(&["theme", "boss"]));
    assert_eq!(a.play_music("boss"), Ok(()));
    assert_eq!(a.current_music.as_deref(), Some("boss"));
    assert_eq!(a.play_music("nope").unwrap_err(), "Unknown music track: nope");
    assert_eq!(a.current_music.as_deref(), Some("boss"));
    a.set_music(names(&["boss", "calm"]));
    assert_eq!(a.current_music.as_deref(), Some("boss"));
    a.set_music(names(&["calm"]));
    assert_eq!(a.current_music, None);
    assert_eq!(a.play_music("calm"), Ok(()));
    assert_eq!(a.stop_music().as_deref(), Some("calm"));
    assert_eq!(a.stop_music(), None);
}

#[test]
fn effects_and_triggers() {
    let mut a = AudioRegistry::new();
    a.sfx = names(&["jump", "coin"]);
    a.triggers = vec![("player_jump".to_string(), "jump".to_string())];
    assert_eq!(a.play_sfx("coin"), Ok(()));
    assert_eq!(a.play_sfx("boom").unwrap_err(), "Unknown sfx: boom");
    assert_eq!(a.trigger_for("player_jump").as_deref(), Some("jump"));
    assert_eq!(a.trigger_for("player_land"), None);
}

#[test]
fn audio_events_map_to_commands() {
    assert_eq!(audio_command("audio_play_sfx", Some(" jump "), None, false), AudioCommand::PlaySfx("jump".into()));
    assert_eq!(audio_command("audio_play_sfx", Some("  "), None, false), AudioCommand::Ignore);
    assert_eq!(audio_command("audio_play_sfx", None, None, false), AudioCommand::Ignore);
    assert_eq!(audio_command("audio_play_music", Some("theme"), None, false), AudioCommand::PlayMusic("theme".into()));
    assert_eq!(audio_command("audio_stop_music", None, None, false), AudioCommand::StopMusic);
    assert_eq!(audio_command("audio_set_volume", None, Some(" sfx"), true), AudioCommand::SetVolume("sfx".into()));
    assert_eq!(audio_command("audio_set_volume", None, Some("sfx"), false), AudioCommand::Ignore);
    assert_eq!(audio_command("audio_set_volume", None, Some(""), true), AudioCommand::Ignore);
    assert_eq!(audio_command("player_jump", Some("x"), None, true), AudioCommand::Trigger);
}
