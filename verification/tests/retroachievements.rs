use relic::retroachievements::client::{
    game_match, lookup_params, lookup_url, GameIdMatch, LimitConfig, Next, Outcome, RaClientError,
    RateLimiter,
};
use relic::retroachievements::hash::read_hash;
use relic::retroachievements::store::no_match_fresh;

const MS: u64 = 1_000_000;

fn quick_config(max_retries: usize, threshold: usize) -> LimitConfig {
    LimitConfig {
        base_backoff_ms: 5,
        max_backoff_ns: 50 * MS,
        max_retries,
        breaker_threshold: threshold,
        breaker_duration_ns: 10_000 * MS,
        ..LimitConfig::standard()
    }
}

#[test]
fn test_rate_limiting_retry_and_success() {
    let mut limiter = RateLimiter::new(quick_config(3, 5));
    assert!(limiter.check_breaker(0).is_ok());
    limiter.start_request(0);
    let next = limiter.after_attempt(0, &Outcome::Status(429, "429 Too Many Requests".into()), 0, 7);
    match next {
        Next::Retry { attempt, backoff_ns } => {
            assert_eq!(attempt, 1);
            assert!(backoff_ns <= 50 * MS);
        }
        other => panic!("expected a retry, got {other:?}"),
    }
    assert_eq!(limiter.rate_limit_hits(), 1);
    let next = limiter.after_attempt(1, &Outcome::Status(200, "200 OK".into()), 60 * MS, 7);
    assert_eq!(next, Next::Done);
    assert_eq!(limiter.failures(), 0);
    assert_eq!(game_match(Some(12345)), Some(GameIdMatch { game_id: 12345 }));
}

#[test]
fn test_hash_miss_gameid_zero() {
    assert!(game_match(Some(0)).is_none());
}

#[test]
fn test_hash_miss_gameid_absent() {
    assert!(game_match(None).is_none());
}

#[test]
fn test_circuit_breaker_trips() {
    let mut limiter = RateLimiter::new(quick_config(2, 2));
    let err = Outcome::Status(500, "500 Internal Server Error".into());
    assert!(matches!(limiter.after_attempt(0, &err, 1, 0), Next::Retry { attempt: 1, .. }));
    assert!(matches!(limiter.after_attempt(1, &err, 2, 0), Next::Retry { attempt: 2, .. }));
    assert_eq!(
        limiter.after_attempt(2, &err, 3, 0),
        Next::Fail(RaClientError::HttpError(
            500,
            "HTTP status 500 Internal Server Error".into()
        ))
    );
    assert_eq!(limiter.check_breaker(4), Err(RaClientError::CircuitBreakerOpen));
}

#[test]
fn open_breaker_closes_after_its_duration() {
    let mut limiter = RateLimiter::new(quick_config(0, 1));
    let next = limiter.after_attempt(0, &Outcome::NetworkError("refused".into()), 100, 0);
    assert_eq!(next, Next::Fail(RaClientError::Network("refused".into())));
    assert_eq!(limiter.check_breaker(100 + 9_999 * MS), Err(RaClientError::CircuitBreakerOpen));
    assert!(limiter.check_breaker(100 + 10_000 * MS).is_ok());
    assert_eq!(limiter.failures(), 0);
}

#[test]
fn other_client_errors_fail_without_retry() {
    let mut limiter = RateLimiter::new(quick_config(3, 5));
    assert_eq!(
        limiter.after_attempt(0, &Outcome::Status(404, "404 Not Found".into()), 0, 0),
        Next::Fail(RaClientError::HttpError(404, "HTTP status 404 Not Found".into()))
    );
}

#[test]
fn exhausted_429_is_rate_limited() {
    let mut limiter = RateLimiter::new(quick_config(0, 5));
    assert_eq!(
        limiter.after_attempt(0, &Outcome::Status(429, "429 Too Many Requests".into()), 0, 0),
        Next::Fail(RaClientError::RateLimited)
    );
}

#[test]
fn backoff_never_exceeds_the_cap() {
    let limiter = RateLimiter::new(LimitConfig::standard());
    for attempt in 1..40 {
        for nanos in [0u64, 1, 999_999_999] {
            assert!(limiter.backoff(attempt, nanos) <= 60_000 * MS);
        }
    }
    assert!(limiter.backoff(1, 0) >= 500 * MS);
}

#[test]
fn second_request_waits_out_the_interval() {
    let mut limiter = RateLimiter::new(LimitConfig::standard());
    assert_eq!(limiter.pace_per_second(0), 0);
    limiter.start_request(0);
    assert_eq!(limiter.pace_per_second(50 * MS), 150 * MS);
    assert_eq!(limiter.pace_per_second(300 * MS), 0);
}

#[test]
fn error_messages() {
    assert_eq!(RaClientError::RateLimited.message(), "rate limited (429)");
    assert_eq!(
        RaClientError::HttpError(503, "x".into()).message(),
        "HTTP error 503: x"
    );
    assert_eq!(RaClientError::Network("down".into()).message(), "network error: down");
}

#[test]
fn lookup_request_carries_credentials_only_in_pairs() {
    assert_eq!(lookup_url("https://retroachievements.org"), "https://retroachievements.org/dorequest.php");
    let anon = lookup_params("abc", &Some("me".into()), &None);
    assert_eq!(anon, vec![("r".to_string(), "gameid".to_string()), ("m".to_string(), "abc".to_string())]);
    let auth = lookup_params("abc", &Some("me".into()), &Some("key".into()));
    assert_eq!(auth.len(), 4);
    assert_eq!(auth[2], ("u".to_string(), "me".to_string()));
    assert_eq!(auth[3], ("y".to_string(), "key".to_string()));
}

#[test]
fn test_caching_and_ttl() {
    let now = 1_700_000_000;
    assert!(!no_match_fresh(now, None, 60));
    assert!(no_match_fresh(now, Some(now), 60));
    assert!(!no_match_fresh(now, Some(now), 0));
    assert!(!no_match_fresh(now, Some(now - 60), 60));
    assert!(no_match_fresh(now, Some(now - 59), 60));
}

#[test]
fn read_hash_stops_at_the_nul() {
    let mut buf = [0u8; 33];
    buf[..4].copy_from_slice(b"ab12");
    assert_eq!(read_hash(1, &buf).as_deref(), Some("ab12"));
    assert_eq!(read_hash(0, &buf), None);
    let full = [b'f'; 33];
    assert_eq!(read_hash(1, &full).map(|s| s.len()), Some(33));
    assert_eq!(read_hash(1, &[0xff, 0]), None);
}
