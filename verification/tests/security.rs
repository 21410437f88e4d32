use axiom_core::security::{
    client_key, guard_request, token_accepted, ApiSecurity, GuardDecision, HeaderText, RateLimiter,
};

const SECOND: u64 = 1_000_000_000;

fn text(s: &str) -> HeaderText {
    HeaderText::Text(s.to_string())
}

fn secured(limit: u32) -> ApiSecurity {
    ApiSecurity { required_token: Some("secret".to_string()), rate_limit_per_sec: Some(limit) }
}

#[test]
fn rejects_when_token_missing_or_invalid() {
    let security = secured(100);
    let mut limiter = RateLimiter::new();
    let missing = guard_request(
        &security,
        &mut limiter,
        &HeaderText::Absent,
        &HeaderText::Absent,
        &HeaderText::Absent,
        &HeaderText::Absent,
        0,
    );
    assert_eq!(missing, GuardDecision::Unauthorized);
    let bad = guard_request(
        &security,
        &mut limiter,
        &text("Bearer nope"),
        &HeaderText::Absent,
        &HeaderText::Absent,
        &HeaderText::Absent,
        1,
    );
    assert_eq!(bad, GuardDecision::Unauthorized);
    // Refused requests are not counted.
    assert_eq!(limiter.len(), 0);
}

#[test]
fn allows_valid_token_and_applies_rate_limit() {
    let security = secured(1);
    let mut limiter = RateLimiter::new();
    let auth = text("Bearer secret");
    let ip = text("127.0.0.1");
    let first = guard_request(&security, &mut limiter, &auth, &HeaderText::Absent, &HeaderText::Absent, &ip, 0);
    assert_eq!(first, GuardDecision::Allow);
    let second = guard_request(&security, &mut limiter, &auth, &HeaderText::Absent, &HeaderText::Absent, &ip, 10);
    assert_eq!(second, GuardDecision::RateLimited);
}

#[test]
fn window_resets_after_one_second() {
    let security = ApiSecurity { required_token: None, rate_limit_per_sec: Some(2) };
    let mut limiter = RateLimiter::new();
    let ip = text("10.0.0.1");
    let mut at = |t: u64| {
        guard_request(&security, &mut limiter, &HeaderText::Absent, &HeaderText::Absent, &HeaderText::Absent, &ip, t)
    };
    assert_eq!(at(0), GuardDecision::Allow);
    assert_eq!(at(SECOND / 2), GuardDecision::Allow);
    assert_eq!(at(SECOND - 1), GuardDecision::RateLimited);
    assert_eq!(at(SECOND), GuardDecision::Allow);
    assert_eq!(at(SECOND + 1), GuardDecision::Allow);
    assert_eq!(at(SECOND + 2), GuardDecision::RateLimited);
}

#[test]
fn clients_are_counted_separately() {
    let security = ApiSecurity { required_token: None, rate_limit_per_sec: Some(1) };
    let mut limiter = RateLimiter::new();
    let a = text("1.1.1.1");
    let b = text("2.2.2.2");
    let none = HeaderText::Absent;
    assert_eq!(guard_request(&security, &mut limiter, &none, &none, &a, &none, 5), GuardDecision::Allow);
    assert_eq!(guard_request(&security, &mut limiter, &none, &none, &b, &none, 6), GuardDecision::Allow);
    assert_eq!(guard_request(&security, &mut limiter, &none, &none, &a, &none, 7), GuardDecision::RateLimited);
    assert_eq!(limiter.len(), 2);
}

#[test]
fn token_is_accepted_from_bearer_or_api_key() {
    assert!(token_accepted("secret", &text("Bearer secret"), &HeaderText::Absent));
    assert!(token_accepted("secret", &text("bearer secret"), &HeaderText::Absent));
    assert!(token_accepted("secret", &text("  secret  "), &HeaderText::Absent));
    assert!(token_accepted("secret", &HeaderText::Absent, &text(" secret ")));
    assert!(token_accepted("secret", &text("Bearer nope"), &text("secret")));
    assert!(!token_accepted("secret", &text("BEARER secret"), &HeaderText::Absent));
    assert!(!token_accepted("secret", &HeaderText::Unreadable, &HeaderText::Unreadable));
    assert!(!token_accepted("secret", &text("Bearer nope"), &text("nope")));
}

#[test]
fn client_key_prefers_forwarded_for_then_real_ip() {
    assert_eq!(client_key(&text("9.9.9.9"), &text("1.2.3.4")), "9.9.9.9");
    assert_eq!(client_key(&HeaderText::Absent, &text("1.2.3.4")), "1.2.3.4");
    assert_eq!(client_key(&HeaderText::Absent, &HeaderText::Absent), "local");
    // A forwarded-for header that cannot be read hides the real-ip header.
    assert_eq!(client_key(&HeaderText::Unreadable, &text("1.2.3.4")), "local");
}

#[test]
fn settings_parse_token_and_limit() {
    let s = ApiSecurity::from_settings(Some("  tok  "), Some("25"));
    assert_eq!(s.required_token.as_deref(), Some("tok"));
    assert_eq!(s.rate_limit_per_sec, Some(25));
    let s = ApiSecurity::from_settings(Some("   "), None);
    assert_eq!(s.required_token, None);
    assert_eq!(s.rate_limit_per_sec, None);
    assert_eq!(ApiSecurity::from_settings(None, Some("0")).rate_limit_per_sec, Some(1));
    assert_eq!(ApiSecurity::from_settings(None, Some("fast")).rate_limit_per_sec, None);
    assert_eq!(ApiSecurity::from_settings(None, Some("-3")).rate_limit_per_sec, None);
    assert_eq!(ApiSecurity::from_settings(None, Some("+7")).rate_limit_per_sec, Some(7));
    assert_eq!(ApiSecurity::from_settings(None, Some("4294967296")).rate_limit_per_sec, None);
    assert_eq!(ApiSecurity::from_settings(None, Some(" 7")).rate_limit_per_sec, None);
}

#[test]
fn no_limit_configured_means_unlimited() {
    let security = ApiSecurity::from_settings(None, None);
    assert_eq!(security.required_token, None);
    assert_eq!(security.rate_limit_per_sec, None);
    let mut limiter = RateLimiter::new();
    for i in 0..1000u64 {
        let d = guard_request(&security, &mut limiter, &HeaderText::Absent, &HeaderText::Absent, &HeaderText::Absent, &HeaderText::Absent, 5 + i);
        assert_eq!(d, GuardDecision::Allow);
    }
}
