use portiq::config::{AddPrefixConfig, MiddlewareConfig, RateLimitConfig, RateLimitKeySource};
use portiq::rate_limiter::{rate_limit_key, rate_limiters_of, step_after_check, ChainStep, RateDecision, RateLimiter, TokenBucket, TokenBucketRateLimiter};

#[test]
fn test_blocks_after_exceeding_limit() {
    let key = "ajay:yadav";
    let mut limiter = TokenBucketRateLimiter::new(RateLimitKeySource::IP(None), 10, 60_000);
    for _i in 1..=10 {
        assert!(limiter.allow(key, 0));
    }
    assert!(!limiter.allow(key, 0));
}

#[test]
fn test_returns_retry_duration_on_limit_exceeded() {
    let key = "ajay:yadav";
    let mut limiter = TokenBucketRateLimiter::new(RateLimitKeySource::IP(None), 1, 5_000);

    assert!(limiter.allow(key, 0));

    let retry = limiter.retry_after(key);
    assert!(retry.unwrap() >= 4 && retry.unwrap() <= 5);
}

#[test]
fn test_refills_tokens_over_time() {
    let key = "ajay:yadav";
    let mut limiter = TokenBucketRateLimiter::new(RateLimitKeySource::IP(None), 3, 2_000);
    assert!(limiter.allow(key, 0));
    assert!(limiter.allow(key, 0));
    assert!(limiter.allow(key, 0));
    assert!(!limiter.allow(key, 0));
    assert!(limiter.allow(key, 2_000));
}

#[test]
fn two_per_minute_gives_allow_allow_reject() {
    let mut limiter = TokenBucketRateLimiter::new(RateLimitKeySource::IP(None), 2, 60_000);
    assert_eq!(limiter.check("10.0.0.1", 1_000), RateDecision::Allow);
    assert_eq!(limiter.check("10.0.0.1", 1_000), RateDecision::Allow);
    match limiter.check("10.0.0.1", 1_000) {
        RateDecision::Reject(secs) => {
            assert!(secs >= 29);
            assert_eq!(secs, 30);
        }
        RateDecision::Allow => panic!("third request should be refused"),
    }
    assert_eq!(limiter.check("10.0.0.2", 1_000), RateDecision::Allow);
    assert_eq!(limiter.check("10.0.0.1", 61_000), RateDecision::Allow);
}

#[test]
fn partial_refill_shortens_retry() {
    let mut limiter = TokenBucketRateLimiter::new(RateLimitKeySource::IP(None), 1, 10_000);
    assert_eq!(limiter.check("k", 0), RateDecision::Allow);
    assert_eq!(limiter.check("k", 2_500), RateDecision::Reject(8));
    assert_eq!(limiter.retry_after("k"), Some(8));
    assert_eq!(limiter.retry_after("unknown"), None);
}

#[test]
fn bucket_is_capped_at_capacity() {
    let mut b = TokenBucket::new(2, 1_000, 0);
    assert!(b.allow(1_000_000));
    assert!(b.allow(1_000_000));
    assert!(!b.allow(1_000_000));
    assert_eq!(b.retry_after_secs(), 1);
}

fn headers(pairs: &[(&str, &str)]) -> Vec<(String, String)> {
    pairs.iter().map(|(n, v)| (n.to_string(), v.to_string())).collect()
}

#[test]
fn key_from_ip_or_header() {
    let hs = headers(&[("X-Real-IP", "9.9.9.9"), ("x-user", "alice")]);
    assert_eq!(rate_limit_key(&RateLimitKeySource::IP(None), &hs, "10.0.0.1"), "10.0.0.1");
    assert_eq!(rate_limit_key(&RateLimitKeySource::IP(Some("x-real-ip".to_string())), &hs, "10.0.0.1"), "9.9.9.9");
    assert_eq!(rate_limit_key(&RateLimitKeySource::IP(Some("x-other".to_string())), &hs, "10.0.0.1"), "10.0.0.1");
    assert_eq!(rate_limit_key(&RateLimitKeySource::RequestHeader("X-User".to_string()), &hs, "10.0.0.1"), "alice");
    assert_eq!(rate_limit_key(&RateLimitKeySource::RequestHeader("x-none".to_string()), &hs, "10.0.0.1"), "-");
}

#[test]
fn one_limiter_per_rate_limit_middleware() {
    let rl = |limit| MiddlewareConfig::RateLimit(RateLimitConfig { source: RateLimitKeySource::IP(None), limit, period_ms: 1_000 });
    let defined = vec![
        ("a".to_string(), rl(1)),
        ("p".to_string(), MiddlewareConfig::AddPrefix(AddPrefixConfig { prefix: "/x".to_string() })),
        ("zero".to_string(), rl(0)),
        ("b".to_string(), rl(5)),
    ];
    let limiters = rate_limiters_of(&defined);
    let names: Vec<&str> = limiters.iter().map(|(n, _)| n.as_str()).collect();
    assert_eq!(names, vec!["a", "b"]);
}

#[test]
fn refusal_stops_the_chain_with_429() {
    assert_eq!(step_after_check(RateDecision::Allow), ChainStep::Proceed);
    assert_eq!(step_after_check(RateDecision::Reject(30)), ChainStep::Reply(429, 30));
}
