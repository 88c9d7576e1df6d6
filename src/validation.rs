//! Validation of a loaded configuration: what makes it acceptable, and why it is not.
use crate::config::{
    GatewayConfig, HttpServiceConfig, Listener, MiddlewareConfig, Protocol, RouteConfig, TLSConfig,
};
use crate::load_balancer::MAX_UPSTREAMS;
use crate::service::{config_pools_fit, pools_fit, tcp_entries};
use crate::text::is_suffix;
use vstd::prelude::*;
use vstd::string::StringExecFns;

verus! {

/// Why a configuration was rejected; each variant names the offending item.
#[derive(Clone, Debug)]
pub enum ConfigError {
    /// `version` is not 1.
    UnsupportedVersion(u8),
    /// TLS is configured but not exactly one entry is marked default.
    DefaultTlsCount(usize),
    /// No listener is configured.
    NoListeners,
    /// Two listeners share this name.
    DuplicateListener(String),
    /// This listener speaks HTTPS but no TLS is configured.
    TlsRequired(String),
    /// Two services share this name.
    DuplicateService(String),
    /// Two middlewares share this name.
    DuplicateMiddleware(String),
    /// This rate-limit middleware has a zero limit or a zero period.
    InvalidRateLimit(String),
    /// A route to this service has neither hosts nor a path.
    MissingMatcher(String),
    /// A route to this service names no listener.
    NoRouteListeners(String),
    /// A route names this listener, which is not defined.
    UndefinedListener(String),
    /// A route targets this service, which is not defined.
    UndefinedService(String),
    /// A route names this middleware, which is not defined.
    UndefinedMiddleware(String),
    /// This service has more upstreams than a load balancer holds.
    TooManyUpstreams(String),
}

/// How many TLS entries are marked default.
pub open spec fn default_count(t: Seq<TLSConfig>) -> nat
    decreases t.len(),
{
    if t.len() == 0 {
        0
    } else {
        default_count(t.drop_last()) + if t.last().default {
            1nat
        } else {
            0nat
        }
    }
}

/// No two entries share a name.
pub open spec fn unique_names<T>(e: Seq<(String, T)>) -> bool {
    forall|i: int, j: int| 0 <= i < j < e.len() ==> #[trigger] e[i].0@ != #[trigger] e[j].0@
}

/// Two entries share the name `n`.
pub open spec fn duplicated<T>(e: Seq<(String, T)>, n: Seq<char>) -> bool {
    exists|i: int, j: int| 0 <= i < j < e.len() && #[trigger] e[i].0@ == n && #[trigger] e[j].0@ == n
}

/// Some entry has the name `n`.
pub open spec fn defines<T>(e: Seq<(String, T)>, n: Seq<char>) -> bool {
    exists|i: int| 0 <= i < e.len() && #[trigger] e[i].0@ == n
}

/// No two listeners share a name.
pub open spec fn unique_listener_names(ls: Seq<Listener>) -> bool {
    forall|i: int, j: int| 0 <= i < j < ls.len() ==> #[trigger] ls[i].name@ != #[trigger] ls[j].name@
}

/// Some listener has the name `n`.
pub open spec fn declares_listener(ls: Seq<Listener>, n: Seq<char>) -> bool {
    exists|i: int| 0 <= i < ls.len() && #[trigger] ls[i].name@ == n
}

/// A rate limit needs a positive limit and a positive period.
pub open spec fn rate_limit_ok(m: MiddlewareConfig) -> bool {
    m matches MiddlewareConfig::RateLimit(c) ==> c.limit > 0 && c.period_ms > 0
}

/// Every listener a route names is declared, and it names at least one.
pub open spec fn route_listeners_ok(cfg: GatewayConfig, r: RouteConfig) -> bool {
    &&& r.listeners@.len() > 0
    &&& forall|k: int| 0 <= k < r.listeners@.len() ==> declares_listener(cfg.listeners@, #[trigger] r.listeners@[k]@)
}

/// A valid HTTP route: it matches on something, its listeners, service and middlewares exist.
pub open spec fn http_route_ok(cfg: GatewayConfig, r: RouteConfig) -> bool {
    &&& r.hosts is Some || r.path is Some
    &&& route_listeners_ok(cfg, r)
    &&& defines(cfg.http.services@, r.service@)
    &&& r.middlewares matches Some(ms) ==> forall|k: int| 0 <= k < ms@.len() ==> defines(cfg.http.middlewares@, #[trigger] ms@[k]@)
}

/// A valid TCP route: its listeners and its service exist.
pub open spec fn tcp_route_ok(cfg: GatewayConfig, services: Seq<(String, HttpServiceConfig)>, r: RouteConfig) -> bool {
    &&& route_listeners_ok(cfg, r)
    &&& defines(services, r.service@)
}

/// Whether a configuration is accepted.
pub open spec fn config_valid(cfg: GatewayConfig) -> bool {
    &&& cfg.version == 1
    &&& cfg.tls matches Some(t) ==> default_count(t@) == 1
    &&& cfg.listeners@.len() > 0
    &&& unique_listener_names(cfg.listeners@)
    &&& forall|i: int| 0 <= i < cfg.listeners@.len() && (#[trigger] cfg.listeners@[i]).protocol == Protocol::Https ==> cfg.tls is Some
    &&& unique_names(cfg.http.services@)
    &&& config_pools_fit(cfg)
    &&& unique_names(cfg.http.middlewares@)
    &&& forall|i: int| 0 <= i < cfg.http.middlewares@.len() ==> rate_limit_ok(#[trigger] cfg.http.middlewares@[i].1)
    &&& forall|i: int| 0 <= i < cfg.http.routes@.len() ==> http_route_ok(cfg, #[trigger] cfg.http.routes@[i])
    &&& cfg.tcp matches Some(t) ==> {
        &&& unique_names(t.services@)
        &&& forall|i: int| 0 <= i < t.routes@.len() ==> tcp_route_ok(cfg, t.services@, #[trigger] t.routes@[i])
    }
}

/// The middleware names a route declares (none when absent).
pub open spec fn route_middlewares(r: RouteConfig) -> Seq<String> {
    match r.middlewares {
        Some(m) => m@,
        None => Seq::empty(),
    }
}

/// The routes of a configuration, HTTP then TCP.
pub open spec fn all_routes(cfg: GatewayConfig) -> Seq<RouteConfig> {
    cfg.http.routes@ + match cfg.tcp {
        Some(t) => t.routes@,
        None => Seq::empty(),
    }
}

/// Whether `e` names a real violation of `cfg`.
pub open spec fn error_holds(cfg: GatewayConfig, e: ConfigError) -> bool {
    match e {
        ConfigError::UnsupportedVersion(v) => v == cfg.version && v != 1,
        ConfigError::DefaultTlsCount(n) => cfg.tls matches Some(t) && n == default_count(t@) && n != 1,
        ConfigError::NoListeners => cfg.listeners@.len() == 0,
        ConfigError::DuplicateListener(n) => exists|i: int, j: int|
            0 <= i < j < cfg.listeners@.len() && #[trigger] cfg.listeners@[i].name@ == n@
                && #[trigger] cfg.listeners@[j].name@ == n@,
        ConfigError::TlsRequired(n) => cfg.tls is None && exists|i: int|
            0 <= i < cfg.listeners@.len() && (#[trigger] cfg.listeners@[i]).name@ == n@
                && cfg.listeners@[i].protocol == Protocol::Https,
        ConfigError::DuplicateService(n) => duplicated(cfg.http.services@, n@) || (cfg.tcp matches Some(t) && duplicated(t.services@, n@)),
        ConfigError::DuplicateMiddleware(n) => duplicated(cfg.http.middlewares@, n@),
        ConfigError::InvalidRateLimit(n) => exists|i: int|
            0 <= i < cfg.http.middlewares@.len() && (#[trigger] cfg.http.middlewares@[i]).0@ == n@
                && !rate_limit_ok(cfg.http.middlewares@[i].1),
        ConfigError::MissingMatcher(n) => exists|i: int|
            0 <= i < cfg.http.routes@.len() && (#[trigger] cfg.http.routes@[i]).service@ == n@
                && cfg.http.routes@[i].hosts is None && cfg.http.routes@[i].path is None,
        ConfigError::NoRouteListeners(n) => exists|i: int|
            0 <= i < all_routes(cfg).len() && (#[trigger] all_routes(cfg)[i]).service@ == n@
                && all_routes(cfg)[i].listeners@.len() == 0,
        ConfigError::UndefinedListener(n) => !declares_listener(cfg.listeners@, n@) && exists|i: int, k: int|
            0 <= i < all_routes(cfg).len() && 0 <= k < all_routes(cfg)[i].listeners@.len()
                && (#[trigger] all_routes(cfg)[i].listeners@[k])@ == n@,
        ConfigError::UndefinedService(n) => {
            ||| (!defines(cfg.http.services@, n@) && exists|i: int|
                0 <= i < cfg.http.routes@.len() && (#[trigger] cfg.http.routes@[i]).service@ == n@)
            ||| (cfg.tcp matches Some(t) && !defines(t.services@, n@) && exists|i: int|
                0 <= i < t.routes@.len() && (#[trigger] t.routes@[i]).service@ == n@)
        },
        ConfigError::TooManyUpstreams(n) => {
            ||| (exists|i: int| 0 <= i < cfg.http.services@.len() && (#[trigger] cfg.http.services@[i]).0@ == n@
                && cfg.http.services@[i].1.upstreams@.len() > MAX_UPSTREAMS)
            ||| (exists|i: int| 0 <= i < tcp_entries(cfg).len() && (#[trigger] tcp_entries(cfg)[i]).0@ == n@
                && tcp_entries(cfg)[i].1.upstreams@.len() > MAX_UPSTREAMS)
        },
        ConfigError::UndefinedMiddleware(n) => !defines(cfg.http.middlewares@, n@) && exists|i: int, k: int|
            0 <= i < cfg.http.routes@.len() && 0 <= k < route_middlewares(cfg.http.routes@[i]).len()
                && (#[trigger] route_middlewares(cfg.http.routes@[i])[k])@ == n@,
    }
}

/// The name an error carries, if any.
pub open spec fn error_subject(e: ConfigError) -> Option<Seq<char>> {
    match e {
        ConfigError::DuplicateListener(n) => Some(n@),
        ConfigError::TlsRequired(n) => Some(n@),
        ConfigError::DuplicateService(n) => Some(n@),
        ConfigError::DuplicateMiddleware(n) => Some(n@),
        ConfigError::InvalidRateLimit(n) => Some(n@),
        ConfigError::MissingMatcher(n) => Some(n@),
        ConfigError::NoRouteListeners(n) => Some(n@),
        ConfigError::UndefinedListener(n) => Some(n@),
        ConfigError::UndefinedService(n) => Some(n@),
        ConfigError::UndefinedMiddleware(n) => Some(n@),
        ConfigError::TooManyUpstreams(n) => Some(n@),
        _ => None,
    }
}

impl ConfigError {
    /// A one-sentence human message; it ends with the name of the offending item.
    pub fn message(&self) -> (r: String)
        ensures
            r@.len() > 0,
            error_subject(*self) matches Some(n) ==> is_suffix(n, r@),
    {
        let (lead, name) = match self {
            ConfigError::UnsupportedVersion(_) => ("version value must be 1", None),
            ConfigError::DefaultTlsCount(_) => ("Exactly one TLS config must be marked as default", None),
            ConfigError::NoListeners => ("At least one listener is required", None),
            ConfigError::DuplicateListener(n) => ("Duplicate listener name ", Some(n)),
            ConfigError::TlsRequired(n) => ("TLS config is required to spawn listener ", Some(n)),
            ConfigError::DuplicateService(n) => ("Duplicate service name ", Some(n)),
            ConfigError::DuplicateMiddleware(n) => ("Duplicate middleware name ", Some(n)),
            ConfigError::InvalidRateLimit(n) => ("Limit and period must be positive for rate limit ", Some(n)),
            ConfigError::MissingMatcher(n) => ("At least one of hosts or path is required for matching route against service ", Some(n)),
            ConfigError::NoRouteListeners(n) => ("At least one listener is required for route against service ", Some(n)),
            ConfigError::UndefinedListener(n) => ("Undefined listener ", Some(n)),
            ConfigError::UndefinedService(n) => ("Undefined service ", Some(n)),
            ConfigError::UndefinedMiddleware(n) => ("Undefined middleware ", Some(n)),
            ConfigError::TooManyUpstreams(n) => ("At most 65535 upstreams are supported for service ", Some(n)),
        };
        proof {
            reveal_strlit("version value must be 1");
            reveal_strlit("Exactly one TLS config must be marked as default");
            reveal_strlit("At least one listener is required");
            reveal_strlit("Duplicate listener name ");
            reveal_strlit("TLS config is required to spawn listener ");
            reveal_strlit("Duplicate service name ");
            reveal_strlit("Duplicate middleware name ");
            reveal_strlit("Limit and period must be positive for rate limit ");
            reveal_strlit("At least one of hosts or path is required for matching route against service ");
            reveal_strlit("At least one listener is required for route against service ");
            reveal_strlit("Undefined listener ");
            reveal_strlit("Undefined service ");
            reveal_strlit("Undefined middleware ");
            reveal_strlit("At most 65535 upstreams are supported for service ");
        }
        let head = String::from_str(lead);
        match name {
            Some(n) => {
                let r = head.concat(n.as_str());
                assert(r@.subrange(r@.len() - n@.len(), r@.len() as int) =~= n@);
                r
            },
            None => head,
        }
    }
}

fn count_defaults(t: &Vec<TLSConfig>) -> (r: usize)
    ensures
        r == default_count(t@),
{
    let mut n: usize = 0;
    for i in 0..t.len()
        invariant
            n == default_count(t@.subrange(0, i as int)),
            n <= i,
    {
        assert(t@.subrange(0, i + 1).drop_last() =~= t@.subrange(0, i as int));
        if t[i].default {
            n = n + 1;
        }
    }
    assert(t@.subrange(0, t@.len() as int) =~= t@);
    n
}

fn find_entry<T>(e: &Vec<(String, T)>, n: &String) -> (r: bool)
    ensures
        r == defines(e@, n@),
{
    for i in 0..e.len()
        invariant
            forall|j: int| 0 <= j < i ==> (#[trigger] e@[j]).0@ != n@,
    {
        if e[i].0 == *n {
            assert(e@[i as int].0@ == n@);
            return true;
        }
    }
    false
}

fn check_unique<T>(e: &Vec<(String, T)>) -> (r: Option<usize>)
    ensures
        r is None <==> unique_names(e@),
        r matches Some(j) ==> j < e@.len() && duplicated(e@, e@[j as int].0@),
{
    for j in 0..e.len()
        invariant
            forall|a: int, b: int| 0 <= a < b < j ==> #[trigger] e@[a].0@ != #[trigger] e@[b].0@,
    {
        for i in 0..j
            invariant
                j < e@.len(),
                forall|a: int| 0 <= a < i ==> #[trigger] e@[a].0@ != e@[j as int].0@,
        {
            if e[i].0 == e[j].0 {
                assert(e@[i as int].0@ == e@[j as int].0@);
                return Some(j);
            }
        }
    }
    None
}

fn find_listener(ls: &Vec<Listener>, n: &String) -> (r: bool)
    ensures
        r == declares_listener(ls@, n@),
{
    for i in 0..ls.len()
        invariant
            forall|j: int| 0 <= j < i ==> (#[trigger] ls@[j]).name@ != n@,
    {
        if ls[i].name == *n {
            assert(ls@[i as int].name@ == n@);
            return true;
        }
    }
    false
}

fn check_pools(cfg: &GatewayConfig, e: &Vec<(String, HttpServiceConfig)>) -> (r: Result<(), ConfigError>)
    requires
        e@ == cfg.http.services@ || e@ == tcp_entries(*cfg),
    ensures
        r is Ok <==> pools_fit(e@),
        r matches Err(err) ==> error_holds(*cfg, err),
{
    for i in 0..e.len()
        invariant
            e@ == cfg.http.services@ || e@ == tcp_entries(*cfg),
            forall|a: int| 0 <= a < i ==> #[trigger] e@[a].1.upstreams@.len() <= MAX_UPSTREAMS,
    {
        if e[i].1.upstreams.len() > MAX_UPSTREAMS {
            return Err(ConfigError::TooManyUpstreams(e[i].0.clone()));
        }
    }
    Ok(())
}

fn check_listeners(cfg: &GatewayConfig) -> (r: Result<(), ConfigError>)
    ensures
        r is Ok <==> (cfg.listeners@.len() > 0 && unique_listener_names(cfg.listeners@) && forall|i: int|
            0 <= i < cfg.listeners@.len() && (#[trigger] cfg.listeners@[i]).protocol == Protocol::Https ==> cfg.tls is Some),
        r matches Err(e) ==> error_holds(*cfg, e),
{
    let ls = &cfg.listeners;
    if ls.len() == 0 {
        return Err(ConfigError::NoListeners);
    }
    for j in 0..ls.len()
        invariant
            ls@ == cfg.listeners@,
            forall|a: int, b: int| 0 <= a < b < j ==> #[trigger] ls@[a].name@ != #[trigger] ls@[b].name@,
            forall|a: int| 0 <= a < j && (#[trigger] ls@[a]).protocol == Protocol::Https ==> cfg.tls is Some,
    {
        for i in 0..j
            invariant
                ls@ == cfg.listeners@,
                j < ls@.len(),
                forall|a: int| 0 <= a < i ==> #[trigger] ls@[a].name@ != ls@[j as int].name@,
        {
            if ls[i].name == ls[j].name {
                assert(ls@[i as int].name@ == ls@[j as int].name@);
                return Err(ConfigError::DuplicateListener(ls[j].name.clone()));
            }
        }
        if ls[j].protocol == Protocol::Https && cfg.tls.is_none() {
            return Err(ConfigError::TlsRequired(ls[j].name.clone()));
        }
    }
    Ok(())
}

fn check_middlewares(cfg: &GatewayConfig) -> (r: Result<(), ConfigError>)
    ensures
        r is Ok <==> (unique_names(cfg.http.middlewares@) && forall|i: int|
            0 <= i < cfg.http.middlewares@.len() ==> rate_limit_ok(#[trigger] cfg.http.middlewares@[i].1)),
        r matches Err(e) ==> error_holds(*cfg, e),
{
    let ms = &cfg.http.middlewares;
    match check_unique(ms) {
        Some(j) => {
            return Err(ConfigError::DuplicateMiddleware(ms[j].0.clone()));
        },
        None => {},
    }
    for i in 0..ms.len()
        invariant
            ms@ == cfg.http.middlewares@,
            forall|a: int| 0 <= a < i ==> rate_limit_ok(#[trigger] ms@[a].1),
    {
        match &ms[i].1 {
            MiddlewareConfig::RateLimit(c) => {
                if c.limit == 0 || c.period_ms == 0 {
                    assert(!rate_limit_ok(ms@[i as int].1));
                    return Err(ConfigError::InvalidRateLimit(ms[i].0.clone()));
                }
            },
            MiddlewareConfig::AddPrefix(_) => {},
        }
    }
    Ok(())
}

fn check_route_listeners(cfg: &GatewayConfig, r: &RouteConfig) -> (res: Result<(), ConfigError>)
    ensures
        res is Ok <==> route_listeners_ok(*cfg, *r),
        res matches Err(e) ==> (e matches ConfigError::NoRouteListeners(n) && n@ == r.service@ && r.listeners@.len() == 0)
            || (e matches ConfigError::UndefinedListener(n) && !declares_listener(cfg.listeners@, n@)
                && exists|k: int| 0 <= k < r.listeners@.len() && (#[trigger] r.listeners@[k])@ == n@),
{
    if r.listeners.len() == 0 {
        return Err(ConfigError::NoRouteListeners(r.service.clone()));
    }
    for k in 0..r.listeners.len()
        invariant
            forall|a: int| 0 <= a < k ==> declares_listener(cfg.listeners@, #[trigger] r.listeners@[a]@),
    {
        if !find_listener(&cfg.listeners, &r.listeners[k]) {
            let n = r.listeners[k].clone();
            assert(r.listeners@[k as int]@ == n@);
            return Err(ConfigError::UndefinedListener(n));
        }
    }
    Ok(())
}

fn check_http_routes(cfg: &GatewayConfig) -> (r: Result<(), ConfigError>)
    ensures
        r is Ok <==> forall|i: int| 0 <= i < cfg.http.routes@.len() ==> http_route_ok(*cfg, #[trigger] cfg.http.routes@[i]),
        r matches Err(e) ==> error_holds(*cfg, e),
{
    let routes = &cfg.http.routes;
    for i in 0..routes.len()
        invariant
            routes@ == cfg.http.routes@,
            forall|a: int| 0 <= a < i ==> http_route_ok(*cfg, #[trigger] routes@[a]),
    {
        let route = &routes[i];
        assert(all_routes(*cfg)[i as int] == *route);
        if route.hosts.is_none() && route.path.is_none() {
            return Err(ConfigError::MissingMatcher(route.service.clone()));
        }
        match check_route_listeners(cfg, route) {
            Err(e) => {
                proof {
                    if let ConfigError::UndefinedListener(ref n) = e {
                        let k = choose|k: int| 0 <= k < route.listeners@.len() && (#[trigger] route.listeners@[k])@ == n@;
                        assert(all_routes(*cfg)[i as int].listeners@[k]@ == n@);
                    }
                }
                return Err(e);
            },
            Ok(()) => {},
        }
        if !find_entry(&cfg.http.services, &route.service) {
            return Err(ConfigError::UndefinedService(route.service.clone()));
        }
        match &route.middlewares {
            Some(ms) => {
                for k in 0..ms.len()
                    invariant
                        route.middlewares == Some(*ms),
                        *route == cfg.http.routes@[i as int],
                        i < cfg.http.routes@.len(),
                        forall|a: int| 0 <= a < k ==> defines(cfg.http.middlewares@, #[trigger] ms@[a]@),
                {
                    if !find_entry(&cfg.http.middlewares, &ms[k]) {
                        let n = ms[k].clone();
                        assert(route_middlewares(cfg.http.routes@[i as int])[k as int]@ == n@);
                        return Err(ConfigError::UndefinedMiddleware(n));
                    }
                }
            },
            None => {},
        }
    }
    Ok(())
}

fn check_tcp(cfg: &GatewayConfig) -> (r: Result<(), ConfigError>)
    ensures
        r is Ok <==> (cfg.tcp matches Some(t) ==> {
            &&& unique_names(t.services@)
            &&& forall|i: int| 0 <= i < t.routes@.len() ==> tcp_route_ok(*cfg, t.services@, #[trigger] t.routes@[i])
        }),
        r matches Err(e) ==> error_holds(*cfg, e),
{
    let t = match &cfg.tcp {
        Some(t) => t,
        None => {
            return Ok(());
        },
    };
    match check_unique(&t.services) {
        Some(j) => {
            return Err(ConfigError::DuplicateService(t.services[j].0.clone()));
        },
        None => {},
    }
    let routes = &t.routes;
    let ghost base = cfg.http.routes@.len();
    for i in 0..routes.len()
        invariant
            cfg.tcp == Some(*t),
            routes@ == t.routes@,
            base == cfg.http.routes@.len(),
            forall|a: int| 0 <= a < i ==> tcp_route_ok(*cfg, t.services@, #[trigger] routes@[a]),
    {
        let route = &routes[i];
        assert(all_routes(*cfg)[base + i] == *route);
        match check_route_listeners(cfg, route) {
            Err(e) => {
                proof {
                    if let ConfigError::UndefinedListener(ref n) = e {
                        let k = choose|k: int| 0 <= k < route.listeners@.len() && (#[trigger] route.listeners@[k])@ == n@;
                        assert(all_routes(*cfg)[base + i].listeners@[k]@ == n@);
                    }
                }
                return Err(e);
            },
            Ok(()) => {},
        }
        if !find_entry(&t.services, &route.service) {
            return Err(ConfigError::UndefinedService(route.service.clone()));
        }
    }
    Ok(())
}

impl GatewayConfig {
    /// Checks the configuration's invariants: it is accepted exactly when it is valid, and
    /// a rejection names a real violation.
    pub fn validate(&self) -> (r: Result<(), ConfigError>)
        ensures
            r is Ok <==> config_valid(*self),
            r matches Err(e) ==> error_holds(*self, e),
    {
        if self.version != 1 {
            return Err(ConfigError::UnsupportedVersion(self.version));
        }
        match &self.tls {
            Some(t) => {
                let count = count_defaults(t);
                if count != 1 {
                    return Err(ConfigError::DefaultTlsCount(count));
                }
            },
            None => {},
        }
        check_listeners(self)?;
        match check_unique(&self.http.services) {
            Some(j) => {
                return Err(ConfigError::DuplicateService(self.http.services[j].0.clone()));
            },
            None => {},
        }
        check_pools(self, &self.http.services)?;
        match &self.tcp {
            Some(t) => check_pools(self, &t.services)?,
            None => {},
        }
        check_middlewares(self)?;
        check_http_routes(self)?;
        check_tcp(self)
    }
}

} // verus!
