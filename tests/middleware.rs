use portiq::config::{AddPrefixConfig, MiddlewareConfig, RateLimitConfig, RateLimitKeySource};
use portiq::middleware::{
    access_level, set_header, AccessLevel, AccessLogger, AddPrefix, ChainLink, MiddlewareRegistry, RequestID,
};

fn headers(pairs: &[(&str, &str)]) -> Vec<(String, String)> {
    pairs.iter().map(|(n, v)| (n.to_string(), v.to_string())).collect()
}

fn defined() -> Vec<(String, MiddlewareConfig)> {
    vec![
        ("prefix".to_string(), MiddlewareConfig::AddPrefix(AddPrefixConfig { prefix: "/api".to_string() })),
        (
            "rl".to_string(),
            MiddlewareConfig::RateLimit(RateLimitConfig { source: RateLimitKeySource::IP(None), limit: 2, period_ms: 60_000 }),
        ),
    ]
}

#[test]
fn chain_starts_with_request_id_and_access_log() {
    let registry = MiddlewareRegistry::init();
    let chain = registry.create_chain(&["rl".to_string(), "prefix".to_string()], &defined()).unwrap();
    assert_eq!(chain.len(), 4);
    assert!(matches!(chain[0], ChainLink::RequestId));
    assert!(matches!(chain[1], ChainLink::AccessLog));
    assert!(matches!(&chain[2], ChainLink::RateLimit(n) if n == "rl"));
    assert!(matches!(&chain[3], ChainLink::AddPrefix(p) if p == "/api"));
}

#[test]
fn chain_with_unknown_middleware_is_none() {
    let registry = MiddlewareRegistry::init();
    assert!(registry.create_chain(&["missing".to_string()], &defined()).is_none());
    assert_eq!(registry.create_chain(&[], &defined()).unwrap().len(), 2);
}

#[test]
fn add_prefix_keeps_query() {
    let m = AddPrefix::new("/api".to_string());
    assert_eq!(m.rewrite("/users", Some("page=2")), "/api/users?page=2");
    assert_eq!(m.rewrite("/users", None), "/api/users");
}

#[test]
fn access_level_by_status() {
    assert_eq!(access_level(200), AccessLevel::Info);
    assert_eq!(access_level(302), AccessLevel::Info);
    assert_eq!(access_level(404), AccessLevel::Error);
    assert_eq!(access_level(502), AccessLevel::Error);
    assert_eq!(access_level(101), AccessLevel::Error);
}

#[test]
fn access_record_defaults() {
    let r = AccessLogger.record(200, "GET", "/x", 7, None, &vec![]);
    assert_eq!(r.client_ip, "127.0.0.1");
    assert_eq!(r.user_agent, "-");
    assert_eq!(r.request_id, "-");
    assert_eq!(r.level, AccessLevel::Info);
    let hs = headers(&[("User-Agent", "curl/8"), ("x-request-id", "abc")]);
    let r = AccessLogger.record(500, "POST", "/y", 9, Some("10.0.0.1"), &hs);
    assert_eq!(r.client_ip, "10.0.0.1");
    assert_eq!(r.user_agent, "curl/8");
    assert_eq!(r.request_id, "abc");
    assert_eq!(r.level, AccessLevel::Error);
    assert_eq!(r.duration_ms, 9);
}

#[test]
fn request_id_is_fresh_and_replaces_existing() {
    let mut hs = headers(&[("X-Request-Id", "old"), ("accept", "*/*")]);
    RequestID.call(&mut hs);
    assert_eq!(hs.len(), 2);
    assert_eq!(hs[0], ("accept".to_string(), "*/*".to_string()));
    assert_eq!(hs[1].0, "x-request-id");
    assert_eq!(hs[1].1.len(), 36);
    assert_ne!(hs[1].1, "old");
    let mut other = vec![];
    RequestID.call(&mut other);
    assert_ne!(other[0].1, hs[1].1);
}

#[test]
fn set_header_replaces_all_of_a_name() {
    let mut hs = headers(&[("a", "1"), ("B", "2"), ("b", "3")]);
    set_header(&mut hs, "b", "4".to_string());
    assert_eq!(hs, headers(&[("a", "1"), ("b", "4")]));
}

#[test]
fn request_id_is_hyphenated_lowercase_uuid_v4() {
    let mut hs = vec![];
    RequestID.call(&mut hs);
    let id: Vec<char> = hs[0].1.chars().collect();
    assert_eq!(id.len(), 36);
    for (i, c) in id.iter().enumerate() {
        if [8, 13, 18, 23].contains(&i) {
            assert_eq!(*c, '-');
        } else {
            assert!(c.is_ascii_digit() || ('a'..='f').contains(c), "{c} at {i}");
        }
    }
    assert_eq!(id[14], '4');
    assert!(['8', '9', 'a', 'b'].contains(&id[19]));
}
