use portiq::config::{
    AccessLog, AdminAPIConfig, GatewayConfig, GatewayLog, HttpConfig, HttpServiceConfig, IpAddress,
    Listener, LogFormat, Protocol, RouteConfig, SocketAddress, Upstream,
};
use portiq::error::RouterError;
use portiq::router::Router;
use portiq::service::ServiceRegistry;

fn s(v: &str) -> String {
    v.to_string()
}

fn listener(name: &str, ip: u32, port: u16) -> Listener {
    Listener { name: s(name), addr: SocketAddress { ip: IpAddress::V4(ip), port }, protocol: Protocol::Http }
}

fn service(name: &str, target: &str) -> (String, HttpServiceConfig) {
    (s(name), HttpServiceConfig { upstreams: vec![Upstream { target: s(target), weight: 1 }] })
}

fn route(hosts: Option<Vec<&str>>, path: Option<&str>, listeners: Vec<&str>, service: &str) -> RouteConfig {
    RouteConfig {
        hosts: hosts.map(|h| h.into_iter().map(s).collect()),
        path: path.map(s),
        listeners: listeners.into_iter().map(s).collect(),
        service: s(service),
        middlewares: None,
        tls: None,
    }
}

fn config(routes: Vec<RouteConfig>) -> GatewayConfig {
    GatewayConfig {
        version: 1,
        admin_api: AdminAPIConfig { addr: SocketAddress { ip: IpAddress::V4(0x7f00_0001), port: 5678 } },
        log: GatewayLog { level: s("INFO"), format: LogFormat::Compact, file_path: s("stdout") },
        access_log: AccessLog { enabled: true, format: LogFormat::Compact, file_path: s("stdout") },
        tls: None,
        listeners: vec![listener("http-main", 0, 3000), listener("internal-http", 0x7f00_0001, 8080)],
        http: HttpConfig {
            middlewares: vec![],
            services: vec![
                service("user-service", "http://user.service1:3000"),
                service("auth-service", "https://auth.service:3000"),
            ],
            routes,
        },
        tcp: None,
    }
}

fn routing_config() -> GatewayConfig {
    config(vec![
        route(Some(vec!["api.example.com", "*.api.example.com"]), Some("/v1/*"), vec!["http-main"], "user-service"),
        route(None, Some("/new"), vec!["internal-main"], "auth-service"),
    ])
}

fn build_router(cfg: &GatewayConfig) -> Router {
    Router::new(cfg, ServiceRegistry::init(cfg))
}

#[test]
fn test_route_matches_with_host_and_path() {
    let router = build_router(&routing_config());
    let route_result = router.get_route("api.example.com", "/v1/api", "http-main");
    assert!(matches!(route_result, Ok(_)), "This route should match to user-service");
    let route = route_result.unwrap();
    assert_eq!(route.get_service(), "user-service");
}

#[test]
fn test_wildcard_host_matches_user_service() {
    let router = build_router(&routing_config());
    let route_result = router.get_route("some.api.example.com", "/v1", "http-main");
    assert!(matches!(route_result, Ok(_)), "This route should match to user-service");
    let route = route_result.unwrap();
    assert_eq!(route.get_service(), "user-service");
}

#[test]
fn wildcard_host_excludes_bare_suffix() {
    let cfg = config(vec![route(Some(vec!["*.example.com"]), None, vec!["http-main"], "user-service")]);
    let router = build_router(&cfg);
    assert!(router.get_route("a.example.com", "/", "http-main").is_ok());
    assert!(matches!(router.get_route("example.com", "/", "http-main"), Err(RouterError::NotFound)));
}

#[test]
fn wildcard_path_matches_base_and_below_only() {
    let cfg = config(vec![route(None, Some("/v1/*"), vec!["http-main"], "user-service")]);
    let router = build_router(&cfg);
    for p in ["/v1", "/v1/", "/v1/x", "/v1/x/y"] {
        assert!(router.get_route("h", p, "http-main").is_ok(), "{p} should match");
    }
    assert!(matches!(router.get_route("h", "/v10", "http-main"), Err(RouterError::NotFound)));
}

#[test]
fn exact_path_matches_with_trailing_slash() {
    let cfg = config(vec![route(None, Some("/api/test"), vec!["http-main"], "user-service")]);
    let router = build_router(&cfg);
    assert!(router.get_route("h", "/api/test", "http-main").is_ok());
    assert!(router.get_route("h", "/api/test/", "http-main").is_ok());
    assert!(router.get_route("h", "/api/test/new", "http-main").is_err());
}

#[test]
fn route_requires_listener() {
    let router = build_router(&routing_config());
    assert!(matches!(router.get_route("api.example.com", "/v1/api", "internal-http"), Err(RouterError::NotFound)));
}

#[test]
fn host_and_path_route_takes_precedence() {
    let cfg = config(vec![
        route(None, Some("/v1/*"), vec!["http-main"], "auth-service"),
        route(Some(vec!["api.example.com"]), Some("/v1/*"), vec!["http-main"], "user-service"),
    ]);
    let router = build_router(&cfg);
    assert_eq!(router.get_route("api.example.com", "/v1/x", "http-main").unwrap().get_service(), "user-service");
    assert_eq!(router.get_route("other.host", "/v1/x", "http-main").unwrap().get_service(), "auth-service");
}

#[test]
fn equal_precedence_prefers_earlier_route() {
    let cfg = config(vec![
        route(None, Some("/v1/*"), vec!["http-main"], "auth-service"),
        route(None, Some("/v1/x"), vec!["http-main"], "user-service"),
    ]);
    let router = build_router(&cfg);
    assert_eq!(router.get_route("h", "/v1/x", "http-main").unwrap().get_service(), "auth-service");
}

#[test]
fn evil_suffix_host_is_not_found() {
    let cfg = config(vec![route(
        Some(vec!["api.example.com", "*.api.example.com"]),
        Some("/v1/*"),
        vec!["http-main"],
        "user-service",
    )]);
    let router = build_router(&cfg);
    assert_eq!(router.get_route("x.api.example.com", "/v1/a", "http-main").unwrap().get_service(), "user-service");
    let err = router.get_route("api.example.com.evil", "/v1/a", "http-main").err().unwrap();
    assert_eq!(err, RouterError::NotFound);
    assert_eq!(err.status_code(), 404);
}

#[test]
fn service_lookup_gives_upstream_or_no_upstream() {
    let router = build_router(&routing_config());
    assert_eq!(router.get_service("user-service").unwrap().target, "http://user.service1:3000");
    let err = router.get_service("missing").err().unwrap();
    assert_eq!(err, RouterError::NoUpstream);
    assert_eq!(err.status_code(), 503);
    assert_eq!(RouterError::MethodNotAllowed.status_code(), 405);
}

#[test]
fn route_keeps_middleware_names_in_order() {
    let mut r = route(None, Some("/p"), vec!["http-main"], "user-service");
    r.middlewares = Some(vec![s("first"), s("second")]);
    let router = build_router(&config(vec![r]));
    let route = router.get_route("h", "/p", "http-main").unwrap();
    assert_eq!(route.get_middlewares(), &[s("first"), s("second")]);
}
