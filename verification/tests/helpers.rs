use axiom_core::sanitize::{sanitize_name, sanitize_replay_name, sanitize_replay_name_at, sanitize_slot};

#[test]
fn sanitize_slot_filters_invalid_chars() {
    assert_eq!(sanitize_slot("../save:one"), "saveone");
    assert_eq!(sanitize_slot(""), "save");
    assert_eq!(sanitize_slot("slot_01-ok"), "slot_01-ok");
}

#[test]
fn sanitize_replay_name_filters_invalid_chars() {
    assert_eq!(sanitize_replay_name("wave#1 replay"), "wave1replay");
}

#[test]
fn sanitize_name_uses_fallback() {
    assert_eq!(sanitize_name("my game!", "game"), "mygame");
    assert_eq!(sanitize_name("???", "game"), "game");
}

#[test]
fn sanitize_replay_name_falls_back_to_timestamp() {
    assert_eq!(sanitize_replay_name_at("!!!", 1234567), "replay_1234567");
    assert_eq!(sanitize_replay_name_at("", 0), "replay_0");
    let named = sanitize_replay_name("***");
    assert!(named.starts_with("replay_"));
    assert!(named["replay_".len()..].chars().all(|c| c.is_ascii_digit()));
}

#[test]
fn sanitize_keeps_unicode_out() {
    assert_eq!(sanitize_name("héllo wörld", "x"), "hllowrld");
}
