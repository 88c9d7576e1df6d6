use portiq::config::{
    AccessLog, AddPrefixConfig, AdminAPIConfig, GatewayConfig, GatewayLog, HttpConfig, HttpServiceConfig, IpAddress,
    Listener, LogFormat, MiddlewareConfig, Protocol, RateLimitConfig, RateLimitKeySource, RouteConfig,
    SocketAddress, TLSConfig, TcpConfig, TcpTlsMode, Upstream,
};
use portiq::gateway_runtime::{static_config_same, Dispatch, GatewayRuntime, ReloadError};
use portiq::config::{
    default_access_log_enabled, default_config_version, default_log_file_path, default_log_level, default_upstream_weight,
};
use portiq::middleware::{AddPrefixFactory, ChainLink};
use portiq::rate_limiter::{RateDecision, RateLimiterFactory};
use portiq::proxy::{outbound_url, routing_host};
use portiq::tls::sni_plan;
use portiq::validation::ConfigError;

fn s(v: &str) -> String {
    v.to_string()
}

fn listener(name: &str, port: u16, protocol: Protocol) -> Listener {
    Listener { name: s(name), addr: SocketAddress { ip: IpAddress::V4(0), port }, protocol }
}

fn service(name: &str, targets: &[&str]) -> (String, HttpServiceConfig) {
    (
        s(name),
        HttpServiceConfig { upstreams: targets.iter().map(|t| Upstream { target: s(t), weight: 1 }).collect() },
    )
}

fn route(hosts: Option<Vec<&str>>, path: Option<&str>, service: &str, middlewares: Option<Vec<&str>>) -> RouteConfig {
    RouteConfig {
        hosts: hosts.map(|h| h.into_iter().map(s).collect()),
        path: path.map(s),
        listeners: vec![s("http-main")],
        service: s(service),
        middlewares: middlewares.map(|m| m.into_iter().map(s).collect()),
        tls: None,
    }
}

fn base_config() -> GatewayConfig {
    GatewayConfig {
        version: 1,
        admin_api: AdminAPIConfig::default(),
        log: GatewayLog { level: s("INFO"), format: LogFormat::default(), file_path: s("stdout") },
        access_log: AccessLog { enabled: true, format: LogFormat::Compact, file_path: s("stdout") },
        tls: None,
        listeners: vec![listener("http-main", 3000, Protocol::default())],
        http: HttpConfig {
            middlewares: vec![],
            services: vec![service("u", &["http://localhost:5000"])],
            routes: vec![route(Some(vec!["api.example.com", "*.api.example.com"]), Some("/v1/*"), "u", None)],
        },
        tcp: None,
    }
}

#[test]
fn defaults_match_documented_values() {
    let admin = AdminAPIConfig::default();
    assert_eq!(admin.addr, SocketAddress { ip: IpAddress::V4(0x7f00_0001), port: 5678 });
    assert_eq!(Protocol::default(), Protocol::Http);
    assert_eq!(LogFormat::default(), LogFormat::Compact);
    assert!(matches!(RateLimitKeySource::default(), RateLimitKeySource::IP(None)));
}

#[test]
fn config_round_trip_forwards_to_upstream() {
    let cfg = base_config();
    assert!(cfg.validate().is_ok());
    let rt = GatewayRuntime::new(cfg);
    let host = routing_host("api.example.com:3000");
    match rt.dispatch(&host, "/v1/hello", "http-main") {
        Dispatch::Forward(target, chain) => {
            assert_eq!(target, "http://localhost:5000");
            assert_eq!(chain.len(), 2);
            assert_eq!(outbound_url(&target, "/v1/hello"), "http://localhost:5000/v1/hello");
        }
        Dispatch::Respond(code) => panic!("unexpected status {code}"),
    }
}

#[test]
fn wildcard_host_dispatch_and_not_found() {
    let rt = GatewayRuntime::new(base_config());
    assert!(matches!(rt.dispatch("x.api.example.com", "/v1/a", "http-main"), Dispatch::Forward(_, _)));
    assert!(matches!(rt.dispatch("api.example.com.evil", "/v1/a", "http-main"), Dispatch::Respond(404)));
}

#[test]
fn precedence_scenario() {
    let mut cfg = base_config();
    cfg.http.services.push(service("b", &["http://b:1"]));
    cfg.http.routes = vec![route(None, Some("/v1/*"), "b", None), route(Some(vec!["api.example.com"]), Some("/v1/*"), "u", None)];
    let rt = GatewayRuntime::new(cfg);
    assert!(matches!(rt.dispatch("api.example.com", "/v1/x", "http-main"), Dispatch::Forward(t, _) if t == "http://localhost:5000"));
    assert!(matches!(rt.dispatch("other.host", "/v1/x", "http-main"), Dispatch::Forward(t, _) if t == "http://b:1"));
}

#[test]
fn empty_pool_gives_service_unavailable() {
    let mut cfg = base_config();
    cfg.http.services = vec![service("u", &[])];
    let rt = GatewayRuntime::new(cfg);
    assert!(matches!(rt.dispatch("api.example.com", "/v1/a", "http-main"), Dispatch::Respond(503)));
}

#[test]
fn route_middlewares_follow_global_ones() {
    let mut cfg = base_config();
    cfg.http.middlewares = vec![
        (s("rl"), MiddlewareConfig::RateLimit(RateLimitConfig { source: RateLimitKeySource::IP(None), limit: 2, period_ms: 60_000 })),
        (s("prefix"), MiddlewareConfig::AddPrefix(AddPrefixConfig { prefix: s("/api") })),
    ];
    cfg.http.routes[0].middlewares = Some(vec![s("prefix"), s("rl")]);
    assert!(cfg.validate().is_ok());
    let rt = GatewayRuntime::new(cfg);
    match rt.dispatch("api.example.com", "/v1/a", "http-main") {
        Dispatch::Forward(_, chain) => {
            assert_eq!(chain.len(), 4);
            assert!(matches!(&chain[2], ChainLink::AddPrefix(p) if p == "/api"));
            assert!(matches!(&chain[3], ChainLink::RateLimit(n) if n == "rl"));
        }
        Dispatch::Respond(code) => panic!("unexpected status {code}"),
    }
}

#[test]
fn hot_reload_of_services_keeps_old_snapshot() {
    let old = GatewayRuntime::new(base_config());
    let mut next_cfg = base_config();
    next_cfg.http.services = vec![service("u", &["http://localhost:6000"])];
    let next = old.reload(next_cfg).ok().unwrap();
    assert!(matches!(old.dispatch("api.example.com", "/v1/poll", "http-main"), Dispatch::Forward(t, _) if t == "http://localhost:5000"));
    assert!(matches!(next.dispatch("api.example.com", "/v1/poll", "http-main"), Dispatch::Forward(t, _) if t == "http://localhost:6000"));
}

#[test]
fn reload_rejects_static_changes_and_invalid_configs() {
    let old = GatewayRuntime::new(base_config());
    let mut moved = base_config();
    moved.listeners[0].addr.port = 3001;
    assert!(matches!(old.reload(moved), Err(ReloadError::StaticFieldsChanged)));
    let mut invalid = base_config();
    invalid.version = 2;
    assert!(matches!(old.reload(invalid), Err(ReloadError::Invalid(ConfigError::UnsupportedVersion(2)))));
}

#[test]
fn static_fields_comparison() {
    let a = base_config();
    let mut b = base_config();
    b.http.services.push(service("extra", &["http://e:1"]));
    assert!(static_config_same(&a, &b));
    b.log.level = s("DEBUG");
    assert!(!static_config_same(&a, &b));
    let mut c = base_config();
    c.tls = Some(vec![]);
    assert!(!static_config_same(&a, &c));
}

fn tls(cert: &str, default: bool, hosts: Option<Vec<&str>>) -> TLSConfig {
    TLSConfig { cert_file: s(cert), key_file: s("k.pem"), default, hostnames: hosts.map(|h| h.into_iter().map(s).collect()) }
}

#[test]
fn validation_errors_name_the_violation() {
    let mut c = base_config();
    c.version = 3;
    assert!(matches!(c.validate(), Err(ConfigError::UnsupportedVersion(3))));

    let mut c = base_config();
    c.tls = Some(vec![tls("a", true, None), tls("b", true, None)]);
    assert!(matches!(c.validate(), Err(ConfigError::DefaultTlsCount(2))));

    let mut c = base_config();
    c.listeners = vec![];
    assert!(matches!(c.validate(), Err(ConfigError::NoListeners)));

    let mut c = base_config();
    c.listeners.push(listener("http-main", 3001, Protocol::Http));
    assert!(matches!(c.validate(), Err(ConfigError::DuplicateListener(n)) if n == "http-main"));

    let mut c = base_config();
    c.listeners.push(listener("secure", 443, Protocol::Https));
    let e = c.validate().err().unwrap();
    assert!(matches!(&e, ConfigError::TlsRequired(n) if n == "secure"));
    assert_eq!(e.message(), "TLS config is required to spawn listener secure");

    let mut c = base_config();
    c.http.services.push(service("u", &["http://x:1"]));
    assert!(matches!(c.validate(), Err(ConfigError::DuplicateService(n)) if n == "u"));

    let mut c = base_config();
    c.http.middlewares = vec![(s("p"), MiddlewareConfig::AddPrefix(AddPrefixConfig { prefix: s("/a") })); 2];
    assert!(matches!(c.validate(), Err(ConfigError::DuplicateMiddleware(n)) if n == "p"));

    let mut c = base_config();
    c.http.middlewares = vec![(s("rl"), MiddlewareConfig::RateLimit(RateLimitConfig { source: RateLimitKeySource::IP(None), limit: 0, period_ms: 1 }))];
    assert!(matches!(c.validate(), Err(ConfigError::InvalidRateLimit(n)) if n == "rl"));

    let mut c = base_config();
    c.http.routes.push(route(None, None, "u", None));
    let e = c.validate().err().unwrap();
    assert!(matches!(&e, ConfigError::MissingMatcher(n) if n == "u"));
    assert!(e.message().ends_with("u"));

    let mut c = base_config();
    c.http.routes[0].listeners = vec![];
    assert!(matches!(c.validate(), Err(ConfigError::NoRouteListeners(n)) if n == "u"));

    let mut c = base_config();
    c.http.routes[0].listeners = vec![s("nowhere")];
    assert!(matches!(c.validate(), Err(ConfigError::UndefinedListener(n)) if n == "nowhere"));

    let mut c = base_config();
    c.http.routes[0].service = s("ghost");
    assert!(matches!(c.validate(), Err(ConfigError::UndefinedService(n)) if n == "ghost"));

    let mut c = base_config();
    c.http.routes[0].middlewares = Some(vec![s("nope")]);
    let e = c.validate().err().unwrap();
    assert!(matches!(&e, ConfigError::UndefinedMiddleware(n) if n == "nope"));
    assert_eq!(e.message(), "Undefined middleware nope");

    let mut c = base_config();
    c.http.services = vec![(s("u"), HttpServiceConfig { upstreams: vec![Upstream { target: s("t"), weight: 1 }; 65536] })];
    assert!(matches!(c.validate(), Err(ConfigError::TooManyUpstreams(n)) if n == "u"));
}

#[test]
fn tls_with_one_default_is_valid() {
    let mut c = base_config();
    c.tls = Some(vec![tls("a", false, Some(vec!["x.com"])), tls("b", true, None)]);
    c.listeners.push(listener("secure", 443, Protocol::Https));
    assert!(c.validate().is_ok());
}

#[test]
fn sni_plan_registers_every_hostname() {
    let entries = vec![tls("a", false, Some(vec!["x.com", "y.com"])), tls("b", true, Some(vec!["z.com"])), tls("c", true, None)];
    let plan = sni_plan(&entries).unwrap();
    assert_eq!(plan.default_index, 1);
    assert_eq!(plan.names, vec![(s("x.com"), 0), (s("y.com"), 0), (s("z.com"), 1)]);
    assert!(sni_plan(&vec![tls("a", false, None)]).is_none());
}

#[test]
fn tcp_dispatch_uses_first_route_of_listener() {
    let mut cfg = base_config();
    cfg.listeners.push(listener("raw", 9000, Protocol::Tcp));
    cfg.tcp = Some(TcpConfig {
        services: vec![service("db", &["10.0.0.5:5432"])],
        routes: vec![RouteConfig { hosts: None, path: None, listeners: vec![s("raw")], service: s("db"), middlewares: None, tls: None }],
    });
    assert!(cfg.validate().is_ok());
    let rt = GatewayRuntime::new(cfg);
    let t = rt.dispatch_tcp("raw").unwrap();
    assert_eq!(t.target, "10.0.0.5:5432");
    assert!(!t.terminate_tls);
    assert!(rt.dispatch_tcp("http-main").is_none());
}

#[test]
fn tcp_dispatch_terminates_tls_when_asked_and_configured() {
    let mut cfg = base_config();
    cfg.listeners.push(listener("raw", 9000, Protocol::Tcp));
    let raw_route = RouteConfig {
        hosts: None,
        path: None,
        listeners: vec![s("raw")],
        service: s("db"),
        middlewares: None,
        tls: Some(TcpTlsMode::Terminate),
    };
    cfg.tcp = Some(TcpConfig { services: vec![service("db", &["10.0.0.5:5432"])], routes: vec![raw_route] });
    let without_tls = GatewayRuntime::new(cfg.clone());
    assert!(!without_tls.dispatch_tcp("raw").unwrap().terminate_tls);
    cfg.tls = Some(vec![tls("a", true, None)]);
    let with_tls = GatewayRuntime::new(cfg);
    assert!(with_tls.dispatch_tcp("raw").unwrap().terminate_tls);
}

#[test]
fn default_settings_functions() {
    assert_eq!(default_log_level(), "INFO");
    assert!(default_access_log_enabled());
    assert_eq!(default_log_file_path(), "stdout");
    assert_eq!(default_upstream_weight(), 1);
    assert_eq!(default_config_version(), 1);
    let log = GatewayLog::default();
    assert_eq!(log.level, "INFO");
    assert_eq!(log.file_path, "stdout");
    let access = AccessLog::default();
    assert!(access.enabled);
    assert_eq!(access.format, LogFormat::Compact);
}

#[test]
fn reload_error_messages() {
    assert_eq!(
        ReloadError::StaticFieldsChanged.message(),
        "A static field of the configuration changed; the configuration was not applied"
    );
    assert_eq!(ReloadError::Invalid(ConfigError::UndefinedService(s("ghost"))).message(), "Undefined service ghost");
    assert_eq!(ReloadError::Invalid(ConfigError::UnsupportedVersion(2)).message(), "version value must be 1");
}

#[test]
fn factories_build_from_matching_config() {
    let rl = MiddlewareConfig::RateLimit(RateLimitConfig { source: RateLimitKeySource::IP(None), limit: 1, period_ms: 1_000 });
    let ap = MiddlewareConfig::AddPrefix(AddPrefixConfig { prefix: s("/p") });
    let factory = RateLimiterFactory::new();
    let mut limiter = factory.create(&rl).unwrap();
    assert_eq!(limiter.check("k", 0), RateDecision::Allow);
    assert_eq!(limiter.check("k", 0), RateDecision::Reject(1));
    assert!(factory.create(&ap).is_none());
    let prefix = AddPrefixFactory.create(&ap).unwrap();
    assert_eq!(prefix.rewrite("/x", None), "/p/x");
    assert!(AddPrefixFactory.create(&rl).is_none());
}
