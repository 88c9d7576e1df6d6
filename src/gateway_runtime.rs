//! The routing snapshot built from one configuration, the reload decision, and the
//! dispatch of a request against a snapshot.
use crate::config::{AccessLog, GatewayConfig, GatewayLog, Listener, TLSConfig, TcpTlsMode, Upstream};
use crate::load_balancer::{lemma_weighted_shape, selectable, selected, total_weight, weighted_of};
use crate::middleware::{all_defined, chain_of, chain_view, ChainLink, MiddlewareRegistry};
use crate::router::{any_match, is_best, is_first_for_listener, route_views_of, tcp_route_configs, RouteView, Router};
use crate::service::{config_pools_fit, registered, tcp_entries, ServiceRegistry};
use crate::text::{is_suffix, views_of};
use crate::validation::{config_valid, error_holds, error_subject, ConfigError};
use vstd::prelude::*;
use vstd::string::StringExecFns;

verus! {

/// Two lists of strings hold the same text.
pub open spec fn same_strings(a: Seq<String>, b: Seq<String>) -> bool {
    views_of(a) == views_of(b)
}

/// Two TLS entries are the same.
pub open spec fn same_tls_entry(a: TLSConfig, b: TLSConfig) -> bool {
    &&& a.cert_file@ == b.cert_file@
    &&& a.key_file@ == b.key_file@
    &&& a.default == b.default
    &&& match (a.hostnames, b.hostnames) {
        (Some(x), Some(y)) => same_strings(x@, y@),
        (None, None) => true,
        _ => false,
    }
}

/// Two TLS sections are the same.
pub open spec fn same_tls(a: Option<Vec<TLSConfig>>, b: Option<Vec<TLSConfig>>) -> bool {
    match (a, b) {
        (Some(x), Some(y)) => x@.len() == y@.len() && forall|i: int| 0 <= i < x@.len() ==> same_tls_entry(#[trigger] x@[i], y@[i]),
        (None, None) => true,
        _ => false,
    }
}

/// Two listener lists are the same.
pub open spec fn same_listeners(a: Seq<Listener>, b: Seq<Listener>) -> bool {
    &&& a.len() == b.len()
    &&& forall|i: int| 0 <= i < a.len() ==> {
        &&& (#[trigger] a[i]).name@ == b[i].name@
        &&& a[i].addr == b[i].addr
        &&& a[i].protocol == b[i].protocol
    }
}

/// Two gateway log settings are the same.
pub open spec fn same_log(a: GatewayLog, b: GatewayLog) -> bool {
    a.level@ == b.level@ && a.format == b.format && a.file_path@ == b.file_path@
}

/// Two access log settings are the same.
pub open spec fn same_access_log(a: AccessLog, b: AccessLog) -> bool {
    a.enabled == b.enabled && a.format == b.format && a.file_path@ == b.file_path@
}

/// The fields a reload may not change are unchanged: version, admin API, logs, TLS and
/// listeners.
pub open spec fn static_same(a: GatewayConfig, b: GatewayConfig) -> bool {
    &&& a.version == b.version
    &&& a.admin_api == b.admin_api
    &&& same_log(a.log, b.log)
    &&& same_access_log(a.access_log, b.access_log)
    &&& same_tls(a.tls, b.tls)
    &&& same_listeners(a.listeners@, b.listeners@)
}

fn strings_equal(a: &Vec<String>, b: &Vec<String>) -> (r: bool)
    ensures
        r == same_strings(a@, b@),
{
    if a.len() != b.len() {
        assert(views_of(a@).len() != views_of(b@).len());
        return false;
    }
    for i in 0..a.len()
        invariant
            a@.len() == b@.len(),
            forall|j: int| 0 <= j < i ==> #[trigger] a@[j]@ == b@[j]@,
    {
        if a[i] != b[i] {
            assert(views_of(a@)[i as int] != views_of(b@)[i as int]);
            return false;
        }
    }
    assert(views_of(a@) =~= views_of(b@));
    true
}

fn tls_entry_equal(a: &TLSConfig, b: &TLSConfig) -> (r: bool)
    ensures
        r == same_tls_entry(*a, *b),
{
    if a.cert_file != b.cert_file || a.key_file != b.key_file || a.default != b.default {
        return false;
    }
    match (&a.hostnames, &b.hostnames) {
        (Some(x), Some(y)) => strings_equal(x, y),
        (None, None) => true,
        _ => false,
    }
}

fn tls_equal(a: &Option<Vec<TLSConfig>>, b: &Option<Vec<TLSConfig>>) -> (r: bool)
    ensures
        r == same_tls(*a, *b),
{
    match (a, b) {
        (Some(x), Some(y)) => {
            if x.len() != y.len() {
                return false;
            }
            for i in 0..x.len()
                invariant
                    *a == Some(*x),
                    *b == Some(*y),
                    x@.len() == y@.len(),
                    forall|j: int| 0 <= j < i ==> same_tls_entry(#[trigger] x@[j], y@[j]),
            {
                if !tls_entry_equal(&x[i], &y[i]) {
                    assert(!same_tls_entry(x@[i as int], y@[i as int]));
                    return false;
                }
            }
            true
        },
        (None, None) => true,
        _ => false,
    }
}

fn listeners_equal(a: &Vec<Listener>, b: &Vec<Listener>) -> (r: bool)
    ensures
        r == same_listeners(a@, b@),
{
    if a.len() != b.len() {
        return false;
    }
    for i in 0..a.len()
        invariant
            a@.len() == b@.len(),
            forall|j: int| 0 <= j < i ==> {
                &&& (#[trigger] a@[j]).name@ == b@[j].name@
                &&& a@[j].addr == b@[j].addr
                &&& a@[j].protocol == b@[j].protocol
            },
    {
        if a[i].name != b[i].name || a[i].addr != b[i].addr || a[i].protocol != b[i].protocol {
            return false;
        }
    }
    true
}

/// Whether a reload from `previous` to `new` leaves the static fields as they were.
pub fn static_config_same(previous: &GatewayConfig, new: &GatewayConfig) -> (r: bool)
    ensures
        r == static_same(*previous, *new),
{
    previous.version == new.version && previous.admin_api == new.admin_api && previous.log.level
        == new.log.level && previous.log.format == new.log.format && previous.log.file_path
        == new.log.file_path && previous.access_log.enabled == new.access_log.enabled
        && previous.access_log.format == new.access_log.format && previous.access_log.file_path
        == new.access_log.file_path && tls_equal(&previous.tls, &new.tls) && listeners_equal(
        &previous.listeners,
        &new.listeners,
    )
}

/// A snapshot: the router and services built from one configuration, and that
/// configuration. It has no mutating method; a reload replaces it whole.
pub struct GatewayRuntime {
    router: Router,
    applied_config: GatewayConfig,
}

/// Whether `router` is exactly what `cfg` builds: its routes and its services.
pub open spec fn built_from(router: Router, cfg: GatewayConfig) -> bool {
    &&& router.http_routes() == route_views_of(cfg.http.routes@)
    &&& router.tcp_routes() == route_views_of(tcp_route_configs(cfg))
    &&& registered(router.registry().http_services(), cfg.http.services@)
    &&& registered(router.registry().tcp_services(), tcp_entries(cfg))
}

/// Where a raw TCP connection goes: an upstream address, after TLS termination or not.
#[derive(Clone, Debug)]
pub struct TcpTarget {
    pub target: String,
    pub terminate_tls: bool,
}

/// What a request is answered with, decided against one snapshot.
#[derive(Clone, Debug)]
pub enum Dispatch {
    /// Answer at once with this status.
    Respond(u16),
    /// Run this chain, ending in a call to this upstream base URL.
    Forward(String, Vec<ChainLink>),
}

/// The message of a reload refused for a changed static field.
pub open spec fn static_change_message() -> Seq<char> {
    "A static field of the configuration changed; the configuration was not applied"@
}

/// Why a reload was refused.
#[derive(Clone, Debug)]
pub enum ReloadError {
    /// The new configuration is invalid.
    Invalid(ConfigError),
    /// A static field changed.
    StaticFieldsChanged,
}

impl ReloadError {
    /// A one-sentence human message: the validation message, which ends with the name of
    /// the offending item, or the static-field refusal.
    pub fn message(&self) -> (r: String)
        ensures
            r@.len() > 0,
            *self matches ReloadError::Invalid(e) ==> (error_subject(e) matches Some(n) ==> is_suffix(n, r@)),
            *self matches ReloadError::StaticFieldsChanged ==> r@ == static_change_message(),
    {
        match self {
            ReloadError::Invalid(e) => e.message(),
            ReloadError::StaticFieldsChanged => {
                proof {
                    reveal_strlit("A static field of the configuration changed; the configuration was not applied");
                }
                String::from_str("A static field of the configuration changed; the configuration was not applied")
            },
        }
    }
}

impl GatewayRuntime {
    /// The configuration this snapshot was built from.
    pub closed spec fn config(&self) -> GatewayConfig {
        self.applied_config
    }

    /// The snapshot's router.
    pub closed spec fn router_spec(&self) -> Router {
        self.router
    }

    /// Builds the services and routes of `gateway_config`.
    pub fn new(gateway_config: GatewayConfig) -> (r: Self)
        requires
            config_pools_fit(gateway_config),
        ensures
            r.config() == gateway_config,
            built_from(r.router_spec(), gateway_config),
    {
        let registry = ServiceRegistry::init(&gateway_config);
        let router = Router::new(&gateway_config, registry);
        GatewayRuntime { router, applied_config: gateway_config }
    }

    pub fn get_last_applied_config(&self) -> (r: &GatewayConfig)
        ensures
            *r == self.config(),
    {
        &self.applied_config
    }

    pub fn get_router(&self) -> (r: &Router)
        ensures
            *r == self.router_spec(),
    {
        &self.router
    }

    /// The snapshot that replaces this one for `new_config`: refused when the configuration
    /// is invalid or changes a static field, else built from it alone.
    pub fn reload(&self, new_config: GatewayConfig) -> (r: Result<GatewayRuntime, ReloadError>)
        ensures
            match r {
                Ok(rt) => {
                    &&& config_valid(new_config)
                    &&& static_same(self.config(), new_config)
                    &&& rt.config() == new_config
                    &&& built_from(rt.router_spec(), new_config)
                },
                Err(ReloadError::Invalid(e)) => !config_valid(new_config) && error_holds(new_config, e),
                Err(ReloadError::StaticFieldsChanged) => config_valid(new_config) && !static_same(self.config(), new_config),
            },
    {
        match new_config.validate() {
            Err(e) => {
                return Err(ReloadError::Invalid(e));
            },
            Ok(()) => {},
        }
        if !static_config_same(&self.applied_config, &new_config) {
            return Err(ReloadError::StaticFieldsChanged);
        }
        Ok(GatewayRuntime::new(new_config))
    }

    /// Decides what a request for `host` and `path` on `listener` gets: 404 without a
    /// matching route, 503 when the route's service offers no upstream, 500 when a middleware
    /// name does not resolve, else the chain of the chosen route and an upstream of its
    /// service.
    pub fn dispatch(&self, host: &str, path: &str, listener: &str) -> (r: Dispatch)
        ensures
            !any_match(self.router_spec().http_routes(), host@, path@, listener@) ==> r == Dispatch::Respond(404),
            any_match(self.router_spec().http_routes(), host@, path@, listener@) ==> exists|i: int| {
                &&& is_best(self.router_spec().http_routes(), i, host@, path@, listener@)
                &&& #[trigger] dispatched(self.router_spec(), self.config(), self.router_spec().http_routes()[i], r)
            },
    {
        let router = &self.router;
        match router.get_route(host, path, listener) {
            Err(e) => Dispatch::Respond(e.status_code()),
            Ok(route) => {
                let ghost routes = router.http_routes();
                let ghost i = choose|i: int| is_best(routes, i, host@, path@, listener@) && route@ == #[trigger] routes[i];
                let ghost cfg = self.config();
                let service = route.get_service();
                let r = match router.get_service(service.as_str()) {
                    Err(e) => Dispatch::Respond(e.status_code()),
                    Ok(upstream) => {
                        let registry = MiddlewareRegistry::init();
                        match registry.create_chain(route.get_middlewares(), &self.applied_config.http.middlewares) {
                            None => Dispatch::Respond(500),
                            Some(chain) => {
                                let target = upstream.target.clone();
                                assert(selectable(router.registry().http_services()[route@.service].pool(), *upstream));
                                assert(upstream.target@ == target@);
                                Dispatch::Forward(target, chain)
                            },
                        }
                    },
                };
                assert(dispatched(self.router_spec(), cfg, routes[i], r));
                r
            },
        }
    }

    /// The upstream a raw TCP connection on `listener` is spliced to: an upstream of the
    /// service of the first route serving the listener, with TLS terminated when the route
    /// asks for it and TLS is configured; `None` when there is no such route or its service
    /// offers no upstream.
    pub fn dispatch_tcp(&self, listener: &str) -> (r: Option<TcpTarget>)
        ensures
            r is Some ==> exists|i: int| {
                &&& is_first_for_listener(self.router_spec().tcp_routes(), i, listener@)
                &&& #[trigger] tcp_target(self.router_spec(), self.router_spec().tcp_routes()[i], r->Some_0.target@)
                &&& r->Some_0.terminate_tls == (self.router_spec().tcp_routes()[i].tls == Some(TcpTlsMode::Terminate)
                    && self.config().tls is Some)
            },
            r is None ==> (forall|j: int| 0 <= j < self.router_spec().tcp_routes().len()
                ==> !(#[trigger] self.router_spec().tcp_routes()[j]).listeners.contains(listener@))
                || exists|i: int| {
                    &&& is_first_for_listener(self.router_spec().tcp_routes(), i, listener@)
                    &&& #[trigger] tcp_unavailable(self.router_spec(), self.router_spec().tcp_routes()[i])
                },
    {
        let router = &self.router;
        match router.get_tcp_route(listener) {
            Err(_) => None,
            Ok(route) => {
                let ghost routes = router.tcp_routes();
                let ghost i = choose|i: int| is_first_for_listener(routes, i, listener@) && route@ == #[trigger] routes[i];
                let service = route.get_service();
                match router.get_tcp_service(service.as_str()) {
                    Err(_) => {
                        assert(tcp_unavailable(self.router_spec(), routes[i]));
                        None
                    },
                    Ok(upstream) => {
                        let target = upstream.target.clone();
                        let terminate_tls = route.get_tls_mode() == Some(TcpTlsMode::Terminate) && self.applied_config.tls.is_some();
                        assert(upstream.target@ == target@);
                        assert(service@ == routes[i].service);
                        assert(self.router_spec().registry().tcp_services().contains_key(routes[i].service));
                        assert(selectable(self.router_spec().registry().tcp_services()[routes[i].service].pool(), *upstream));
                        assert(tcp_target(self.router_spec(), routes[i], target@));
                        let r = Some(TcpTarget { target, terminate_tls });
                        assert(r->Some_0.target@ == target@);
                        r
                    },
                }
            },
        }
    }
}

/// `r` is what a request routed to `route` gets: 503 without an upstream, 500 with an
/// unresolved middleware, else the route's chain and an upstream of its service.
pub open spec fn dispatched(router: Router, cfg: GatewayConfig, route: RouteView, r: Dispatch) -> bool {
    let services = router.registry().http_services();
    if !(services.contains_key(route.service) && total_weight(services[route.service].pool()) > 0) {
        r == Dispatch::Respond(503)
    } else if !all_defined(route.middlewares, cfg.http.middlewares@) {
        r == Dispatch::Respond(500)
    } else {
        r matches Dispatch::Forward(target, chain) && chain_view(chain@) == chain_of(route.middlewares, cfg.http.middlewares@)
            && exists|u: Upstream| selectable(services[route.service].pool(), u) && #[trigger] u.target@ == target@
    }
}

/// `target` is an upstream of the TCP service of `route`.
pub open spec fn tcp_target(router: Router, route: RouteView, target: Seq<char>) -> bool {
    let services = router.registry().tcp_services();
    services.contains_key(route.service) && exists|u: Upstream| selectable(services[route.service].pool(), u) && #[trigger] u.target@ == target
}

/// The TCP service of `route` offers no upstream.
pub open spec fn tcp_unavailable(router: Router, route: RouteView) -> bool {
    let services = router.registry().tcp_services();
    !(services.contains_key(route.service) && total_weight(services[route.service].pool()) > 0)
}

/// Reload: a snapshot built from a valid configuration `cfg` (as `new` and a successful
/// `reload` give) holds service `n` of `cfg` with exactly `n`'s upstreams in `cfg`, so every
/// upstream it selects for `n` is one of those, and none of another configuration's.
pub proof fn lemma_snapshot_services(rt: GatewayRuntime, cfg: GatewayConfig, i: int, u: Upstream)
    requires
        config_valid(cfg),
        built_from(rt.router_spec(), cfg),
        0 <= i < cfg.http.services@.len(),
        total_weight(rt.router_spec().registry().http_services()[cfg.http.services@[i].0@].pool()) > 0,
        selectable(rt.router_spec().registry().http_services()[cfg.http.services@[i].0@].pool(), u),
    ensures
        rt.router_spec().registry().http_services().contains_key(cfg.http.services@[i].0@),
        rt.router_spec().registry().http_services()[cfg.http.services@[i].0@].pool()
            == cfg.http.services@[i].1.upstreams@,
        exists|j: int|
            0 <= j < cfg.http.services@[i].1.upstreams@.len() && u == #[trigger] cfg.http.services@[i].1.upstreams@[j],
{
    let entries = cfg.http.services@;
    let services = rt.router_spec().registry().http_services();
    assert(entries[i].0@ == entries[i].0@);
    assert forall|j: int| i < j < entries.len() implies entries[j].0@ != entries[i].0@ by {
        assert(entries[i].0@ != entries[j].0@);
    }
    let pool = services[entries[i].0@].pool();
    let t = choose|t: nat| u == pool[#[trigger] selected(pool, t as int)];
    lemma_weighted_shape(pool);
    let k = (t as int) % (total_weight(pool) as int);
    assert(0 <= k < weighted_of(pool).len());
    assert(0 <= weighted_of(pool)[k] < pool.len());
    assert(u == entries[i].1.upstreams@[selected(pool, t as int)]);
}

} // verus!
