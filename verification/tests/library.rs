use axiom_core::api_types::{default_coyote, default_game_state, default_left, default_max_slots, ApiResponse};
use axiom_core::order::sort_strings;
use axiom_core::text::{contains_word_token, decimal_string, parse_u32, trim_str};

#[test]
fn api_responses_carry_data_or_error() {
    let r = ApiResponse::success(5u32);
    assert!(r.ok);
    assert_eq!(r.data, Some(5));
    assert!(r.error.is_none());
    let r = ApiResponse::ok();
    assert!(r.ok);
    assert_eq!(r.data.as_deref(), Some("ok"));
    let r = ApiResponse::err("Rate limit exceeded".to_string());
    assert!(!r.ok);
    assert!(r.data.is_none());
    assert_eq!(r.error.as_deref(), Some("Rate limit exceeded"));
}

#[test]
fn request_defaults() {
    assert_eq!(default_left(), "left");
    assert_eq!(default_coyote(), 5);
    assert_eq!(default_max_slots(), 20);
    assert_eq!(default_game_state(), "Playing");
}

#[test]
fn sorting_is_stable_lexicographic_order() {
    let v: Vec<String> = ["b", "a", "ab", "", "B", "a"].iter().map(|s| s.to_string()).collect();
    let mut expected = v.clone();
    expected.sort();
    assert_eq!(sort_strings(&v), expected);
    assert_eq!(sort_strings(&vec![]), Vec::<String>::new());
}

#[test]
fn text_helpers_match_std() {
    for s in ["", "  x ", "\u{3000}y\t", "a b"] {
        assert_eq!(trim_str(s), s.trim());
    }
    for n in [0u64, 7, 10, 12345, u64::MAX] {
        assert_eq!(decimal_string(n), n.to_string());
    }
    for s in ["0", "42", "+9", "4294967295", "4294967296", "", "+", "1a", "-1"] {
        assert_eq!(parse_u32(s), s.parse::<u32>().ok());
    }
    assert!(contains_word_token("x = goto y", "goto"));
    assert!(!contains_word_token("gotoy", "goto"));
    assert!(contains_word_token("goto", "goto"));
}
