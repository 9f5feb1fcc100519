use gaggle::api::middleware::{extract_client_ip, RateLimitConfig, RateLimitState};

#[test]
fn test_rate_limit_under_limit() {
    let mut state = RateLimitState::new();
    let ip = "127.0.0.1";

    for _ in 0..5 {
        assert!(state.check_and_update(ip, 10, 60).is_ok());
    }
}

#[test]
fn test_rate_limit_exceeded() {
    let mut state = RateLimitState::new();
    let ip = "127.0.0.1";

    for _ in 0..10 {
        assert!(state.check_and_update(ip, 10, 60).is_ok());
    }

    assert!(state.check_and_update(ip, 10, 60).is_err());
}

#[test]
fn test_rate_limit_window_reset() {
    let mut state = RateLimitState::new();
    let ip = "127.0.0.1";

    for _ in 0..5 {
        assert!(state.check_and_update_at(ip, 5, 1, 0).is_ok());
    }

    assert!(state.check_and_update_at(ip, 5, 1, 10).is_err());

    // Two seconds later the one-second window has closed.
    assert!(state.check_and_update_at(ip, 5, 1, 2000).is_ok());
}

#[test]
fn test_extract_client_ip_from_x_real_ip() {
    let ip = extract_client_ip(Some("192.168.1.100"), None, Some("127.0.0.1"));
    assert_eq!(ip, "192.168.1.100");
}

#[test]
fn test_extract_client_ip_from_forwarded_for() {
    let ip = extract_client_ip(None, Some("10.0.0.1, 10.0.0.2"), None);
    assert_eq!(ip, "10.0.0.1");
}

#[test]
fn test_extract_client_ip_fallback() {
    let ip = extract_client_ip(None, None, Some("192.168.1.1"));
    assert_eq!(ip, "192.168.1.1");
}

#[test]
fn client_ip_unknown_without_any_source() {
    assert_eq!(extract_client_ip(None, None, None), "unknown");
}

#[test]
fn client_ip_real_ip_wins_over_forwarded_for() {
    let ip = extract_client_ip(Some(" 1.2.3.4 "), Some("5.6.7.8"), Some("9.9.9.9"));
    assert_eq!(ip, " 1.2.3.4 ");
}

#[test]
fn client_ip_forwarded_for_single_entry_is_trimmed() {
    assert_eq!(extract_client_ip(None, Some("  \t203.0.113.7 "), None), "203.0.113.7");
    assert_eq!(extract_client_ip(None, Some(""), Some("1.1.1.1")), "");
}

#[test]
fn retry_after_counts_the_seconds_left_in_the_window() {
    let mut state = RateLimitState::new();
    assert_eq!(state.check_and_update_at("a", 1, 60, 1_000), Ok(()));
    // 15.5 seconds into a 60-second window: 60 - 15 seconds remain.
    assert_eq!(state.check_and_update_at("a", 1, 60, 16_500), Err(45));
}

#[test]
fn addresses_are_counted_apart() {
    let mut state = RateLimitState::new();
    assert!(state.check_and_update_at("a", 1, 60, 0).is_ok());
    assert!(state.check_and_update_at("b", 1, 60, 0).is_ok());
    assert!(state.check_and_update_at("a", 1, 60, 1).is_err());
    assert!(state.check_and_update_at("b", 1, 60, 1).is_err());
}

#[test]
fn zero_limit_refuses_with_the_whole_window() {
    let mut state = RateLimitState::new();
    assert_eq!(state.check_and_update_at("a", 0, 30, 5), Err(30));
    assert_eq!(state.check_and_update_at("a", 0, 30, 6), Err(30));
}

#[test]
fn zero_window_always_passes() {
    let mut state = RateLimitState::new();
    for t in 0..20u64 {
        assert_eq!(state.check_and_update_at("a", 0, 0, t), Ok(()));
    }
}

#[test]
fn exactly_max_requests_pass_per_window() {
    let mut state = RateLimitState::new();
    let mut passed = 0;
    for t in 0..50u64 {
        if state.check_and_update_at("x", 7, 10, t * 100).is_ok() {
            passed += 1;
        }
    }
    assert_eq!(passed, 7);
}

#[test]
fn rate_limit_config_holds_its_values() {
    let c = RateLimitConfig { max_requests: 120, window_seconds: 60 };
    let d = c;
    assert_eq!(d.max_requests, 120);
    assert_eq!(d.window_seconds, 60);
}
