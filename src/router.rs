//! Route resolution: listener, host and path predicates with deterministic precedence.
use crate::config::{GatewayConfig, RouteConfig, TcpTlsMode, Upstream};
use crate::error::RouterError;
use crate::load_balancer::{selectable, total_weight};
use crate::service::ServiceRegistry;
use crate::text::{
    char_views_of, chars_of, chars_of_all, contains_chars, copy_strings, is_prefix, is_suffix,
    region_equal, views_of,
};
use vstd::prelude::*;

verus! {

/// What a route is, as values.
pub struct RouteView {
    pub hosts: Option<Seq<Seq<char>>>,
    pub path: Option<Seq<char>>,
    pub listeners: Seq<Seq<char>>,
    pub service: Seq<char>,
    pub middlewares: Seq<Seq<char>>,
    pub tls: Option<TcpTlsMode>,
}

/// Host predicate: `"*.SUFFIX"` matches a host that ends with `SUFFIX` and is not `SUFFIX`
/// itself; any other pattern matches only the identical host.
pub open spec fn host_matches(host: Seq<char>, pattern: Seq<char>) -> bool {
    if pattern.len() >= 2 && pattern[0] == '*' && pattern[1] == '.' {
        let suffix = pattern.subrange(2, pattern.len() as int);
        is_suffix(suffix, host) && host != suffix
    } else {
        host == pattern
    }
}

/// Path predicate: the path equals the route path, or equals it with a trailing `/`; a
/// route path ending in `/*` also matches any path under its base, and the base itself.
pub open spec fn path_matches(path: Seq<char>, route_path: Seq<char>) -> bool {
    ||| path == route_path
    ||| path == route_path.push('/')
    ||| (is_suffix(seq!['/', '*'], route_path) && (is_prefix(route_path.drop_last(), path)
        || path == route_path.subrange(0, route_path.len() - 2)))
}

/// Whether `route` accepts a request on `listener` for `host` and `path`.
pub open spec fn route_matches(route: RouteView, host: Seq<char>, path: Seq<char>, listener: Seq<char>) -> bool {
    &&& route.listeners.contains(listener)
    &&& route.hosts matches Some(hs) ==> exists|i: int| 0 <= i < hs.len() && host_matches(host, #[trigger] hs[i])
    &&& route.path matches Some(p) ==> path_matches(path, p)
}

/// Precedence: one point for a host predicate, one for a path predicate.
pub open spec fn score(route: RouteView) -> nat {
    (if route.hosts is Some { 1nat } else { 0nat }) + (if route.path is Some { 1nat } else { 0nat })
}

/// Route `i` is the one chosen: it matches, no matching route scores higher, and every
/// earlier matching route scores lower.
pub open spec fn is_best(
    routes: Seq<RouteView>,
    i: int,
    host: Seq<char>,
    path: Seq<char>,
    listener: Seq<char>,
) -> bool {
    &&& 0 <= i < routes.len()
    &&& route_matches(routes[i], host, path, listener)
    &&& forall|j: int| 0 <= j < routes.len() && route_matches(#[trigger] routes[j], host, path, listener)
        ==> score(routes[j]) <= score(routes[i])
    &&& forall|j: int| 0 <= j < i && route_matches(#[trigger] routes[j], host, path, listener)
        ==> score(routes[j]) < score(routes[i])
}

/// Whether any route matches.
pub open spec fn any_match(routes: Seq<RouteView>, host: Seq<char>, path: Seq<char>, listener: Seq<char>) -> bool {
    exists|j: int| 0 <= j < routes.len() && route_matches(#[trigger] routes[j], host, path, listener)
}

/// The first route that serves `listener`, for raw TCP.
pub open spec fn is_first_for_listener(routes: Seq<RouteView>, i: int, listener: Seq<char>) -> bool {
    &&& 0 <= i < routes.len()
    &&& routes[i].listeners.contains(listener)
    &&& forall|j: int| 0 <= j < i ==> !(#[trigger] routes[j]).listeners.contains(listener)
}

/// The runtime form of a route configuration.
pub open spec fn route_view_of(cfg: RouteConfig) -> RouteView {
    RouteView {
        hosts: match cfg.hosts {
            Some(h) => Some(views_of(h@)),
            None => None,
        },
        path: match cfg.path {
            Some(p) => Some(p@),
            None => None,
        },
        listeners: views_of(cfg.listeners@),
        service: cfg.service@,
        middlewares: match cfg.middlewares {
            Some(m) => views_of(m@),
            None => Seq::empty(),
        },
        tls: cfg.tls,
    }
}

/// The runtime forms of a list of route configurations.
pub open spec fn route_views_of(cfgs: Seq<RouteConfig>) -> Seq<RouteView> {
    cfgs.map_values(|c: RouteConfig| route_view_of(c))
}

/// The TCP routes of a configuration (none without a TCP section).
pub open spec fn tcp_route_configs(cfg: GatewayConfig) -> Seq<RouteConfig> {
    match cfg.tcp {
        Some(t) => t.routes@,
        None => Seq::empty(),
    }
}

/// Precedence: when two routes on one listener both match, one with a host and a path
/// predicate is chosen over one with only one of them.
pub proof fn lemma_host_precedence(
    routes: Seq<RouteView>,
    a: int,
    b: int,
    host: Seq<char>,
    path: Seq<char>,
    listener: Seq<char>,
)
    requires
        0 <= a < routes.len(),
        0 <= b < routes.len(),
        route_matches(routes[a], host, path, listener),
        route_matches(routes[b], host, path, listener),
        routes[a].hosts is Some && routes[a].path is Some,
        !(routes[b].hosts is Some && routes[b].path is Some),
    ensures
        !is_best(routes, b, host, path, listener),
{
    assert(score(routes[a]) == 2);
    assert(score(routes[b]) < 2);
}

/// At most one route is chosen for a request.
pub proof fn lemma_best_unique(
    routes: Seq<RouteView>,
    a: int,
    b: int,
    host: Seq<char>,
    path: Seq<char>,
    listener: Seq<char>,
)
    requires
        is_best(routes, a, host, path, listener),
        is_best(routes, b, host, path, listener),
    ensures
        a == b,
{
    if a < b {
        assert(score(routes[a]) < score(routes[b]));
    } else if b < a {
        assert(score(routes[b]) < score(routes[a]));
    }
}

/// A frozen route.
pub struct Route {
    hosts: Option<Vec<Vec<char>>>,
    path: Option<Vec<char>>,
    listeners: Vec<Vec<char>>,
    service: String,
    middlewares: Vec<String>,
    tls: Option<TcpTlsMode>,
}

impl View for Route {
    type V = RouteView;

    closed spec fn view(&self) -> RouteView {
        RouteView {
            hosts: match self.hosts {
                Some(h) => Some(char_views_of(h@)),
                None => None,
            },
            path: match self.path {
                Some(p) => Some(p@),
                None => None,
            },
            listeners: char_views_of(self.listeners@),
            service: self.service@,
            middlewares: views_of(self.middlewares@),
            tls: self.tls,
        }
    }
}

fn host_matches_exec(host: &Vec<char>, pattern: &Vec<char>) -> (r: bool)
    ensures
        r == host_matches(host@, pattern@),
{
    let pl = pattern.len();
    if pl >= 2 && pattern[0] == '*' && pattern[1] == '.' {
        let sl = pl - 2;
        let hl = host.len();
        if sl > hl {
            return false;
        }
        let r = region_equal(host, hl - sl, pattern, 2, sl);
        assert(r == is_suffix(pattern@.subrange(2, pl as int), host@));
        if r && hl == sl {
            assert(host@ =~= host@.subrange(0, hl as int));
        }
        r && hl != sl
    } else {
        crate::text::chars_equal(host, pattern)
    }
}

fn path_matches_exec(path: &Vec<char>, route_path: &Vec<char>) -> (r: bool)
    ensures
        r == path_matches(path@, route_path@),
{
    let pl = path.len();
    let rl = route_path.len();
    let exact = pl == rl && region_equal(path, 0, route_path, 0, rl);
    assert(exact == (path@ == route_path@)) by {
        if pl == rl {
            assert(path@.subrange(0, pl as int) =~= path@);
            assert(route_path@.subrange(0, rl as int) =~= route_path@);
        }
    }
    if exact {
        return true;
    }
    let slash = pl > 0 && pl - 1 == rl && region_equal(path, 0, route_path, 0, rl) && path[rl] == '/';
    assert(slash == (path@ == route_path@.push('/'))) by {
        if pl == rl + 1 {
            assert(route_path@.subrange(0, rl as int) =~= route_path@);
            if path@ == route_path@.push('/') {
                assert(path@.subrange(0, rl as int) =~= route_path@);
            }
            if slash {
                assert(path@ =~= route_path@.push('/'));
            }
        }
    }
    if slash {
        return true;
    }
    if rl >= 2 && route_path[rl - 2] == '/' && route_path[rl - 1] == '*' {
        assert(is_suffix(seq!['/', '*'], route_path@)) by {
            assert(route_path@.subrange(rl - 2, rl as int) =~= seq!['/', '*']);
        }
        let under = pl >= rl - 1 && region_equal(path, 0, route_path, 0, rl - 1);
        assert(under == is_prefix(route_path@.drop_last(), path@)) by {
            assert(route_path@.subrange(0, rl - 1) =~= route_path@.drop_last());
        }
        let base = pl == rl - 2 && region_equal(path, 0, route_path, 0, rl - 2);
        assert(base == (path@ == route_path@.subrange(0, rl - 2))) by {
            if pl == rl - 2 {
                assert(path@.subrange(0, pl as int) =~= path@);
            }
        }
        under || base
    } else {
        assert(!is_suffix(seq!['/', '*'], route_path@)) by {
            if rl >= 2 && is_suffix(seq!['/', '*'], route_path@) {
                assert(route_path@.subrange(rl - 2, rl as int)[0] == route_path@[rl - 2]);
                assert(route_path@.subrange(rl - 2, rl as int)[1] == route_path@[rl - 1]);
            }
        }
        false
    }
}

fn hosts_match_exec(host: &Vec<char>, patterns: &Vec<Vec<char>>) -> (r: bool)
    ensures
        r == exists|i: int|
            0 <= i < char_views_of(patterns@).len() && host_matches(
                host@,
                #[trigger] char_views_of(patterns@)[i],
            ),
{
    for i in 0..patterns.len()
        invariant
            forall|j: int| 0 <= j < i ==> !host_matches(host@, #[trigger] char_views_of(patterns@)[j]),
    {
        if host_matches_exec(host, &patterns[i]) {
            assert(host_matches(host@, char_views_of(patterns@)[i as int]));
            return true;
        }
    }
    false
}

impl Route {
    fn from_config(cfg: &RouteConfig) -> (r: Route)
        ensures
            r@ == route_view_of(*cfg),
    {
        let hosts = match &cfg.hosts {
            Some(h) => Some(chars_of_all(h)),
            None => None,
        };
        let path = match &cfg.path {
            Some(p) => Some(chars_of(p.as_str())),
            None => None,
        };
        let middlewares = match &cfg.middlewares {
            Some(m) => copy_strings(m),
            None => Vec::new(),
        };
        let r = Route {
            hosts,
            path,
            listeners: chars_of_all(&cfg.listeners),
            service: cfg.service.clone(),
            middlewares,
            tls: cfg.tls,
        };
        assert(r@.middlewares =~= route_view_of(*cfg).middlewares);
        r
    }

    fn matches(&self, host: &Vec<char>, path: &Vec<char>, listener: &Vec<char>) -> (r: bool)
        ensures
            r == route_matches(self@, host@, path@, listener@),
    {
        if !contains_chars(&self.listeners, listener) {
            return false;
        }
        let host_ok = match &self.hosts {
            Some(hs) => hosts_match_exec(host, hs),
            None => true,
        };
        let path_ok = match &self.path {
            Some(p) => path_matches_exec(path, p),
            None => true,
        };
        host_ok && path_ok
    }

    fn precedence(&self) -> (r: u8)
        ensures
            r == score(self@),
    {
        let mut s: u8 = 0;
        if self.hosts.is_some() {
            s = s + 1;
        }
        if self.path.is_some() {
            s = s + 1;
        }
        s
    }

    /// The name of the service this route targets.
    pub fn get_service(&self) -> (r: String)
        ensures
            r@ == self@.service,
    {
        self.service.clone()
    }

    /// The route's TLS mode, for a TCP route.
    pub fn get_tls_mode(&self) -> (r: Option<TcpTlsMode>)
        ensures
            r == self@.tls,
    {
        self.tls
    }

    /// The route's middleware names, in declaration order.
    pub fn get_middlewares(&self) -> (r: &[String])
        ensures
            views_of(r@) == self@.middlewares,
    {
        self.middlewares.as_slice()
    }
}

fn routes_of(cfgs: &Vec<RouteConfig>) -> (r: Vec<Route>)
    ensures
        r@.map_values(|x: Route| x@) == route_views_of(cfgs@),
{
    let mut r: Vec<Route> = Vec::new();
    for i in 0..cfgs.len()
        invariant
            r@.len() == i,
            forall|j: int| 0 <= j < i ==> #[trigger] r@[j]@ == route_view_of(cfgs@[j]),
    {
        r.push(Route::from_config(&cfgs[i]));
    }
    assert(r@.map_values(|x: Route| x@) =~= route_views_of(cfgs@));
    r
}

/// Routes for HTTP and raw TCP, and the services they target.
pub struct Router {
    http: Vec<Route>,
    tcp: Vec<Route>,
    svc_registry: ServiceRegistry,
}

impl Router {
    /// The HTTP routes, in declaration order.
    pub closed spec fn http_routes(&self) -> Seq<RouteView> {
        self.http@.map_values(|x: Route| x@)
    }

    /// The TCP routes, in declaration order.
    pub closed spec fn tcp_routes(&self) -> Seq<RouteView> {
        self.tcp@.map_values(|x: Route| x@)
    }

    /// The service registry the routes resolve against.
    pub closed spec fn registry(&self) -> ServiceRegistry {
        self.svc_registry
    }

    /// Freezes the configured routes, in declaration order.
    pub fn new(gateway_config: &GatewayConfig, svc_registry: ServiceRegistry) -> (r: Self)
        ensures
            r.http_routes() == route_views_of(gateway_config.http.routes@),
            r.tcp_routes() == route_views_of(tcp_route_configs(*gateway_config)),
            r.registry() == svc_registry,
    {
        let http = routes_of(&gateway_config.http.routes);
        let tcp = match &gateway_config.tcp {
            Some(t) => routes_of(&t.routes),
            None => {
                let none: Vec<RouteConfig> = Vec::new();
                routes_of(&none)
            },
        };
        Router { http, tcp, svc_registry }
    }

    /// The route chosen for a request: the matching route of highest precedence, the
    /// earliest among equals; `NotFound` when none matches.
    pub fn get_route(&self, host: &str, path: &str, listener: &str) -> (r: Result<&Route, RouterError>)
        ensures
            match r {
                Ok(route) => exists|i: int|
                    is_best(self.http_routes(), i, host@, path@, listener@) && route@ == #[trigger] self.http_routes()[i],
                Err(e) => e == RouterError::NotFound && !any_match(self.http_routes(), host@, path@, listener@),
            },
    {
        let h = chars_of(host);
        let p = chars_of(path);
        let l = chars_of(listener);
        let ghost routes = self.http_routes();
        let mut best: Option<usize> = None;
        let mut best_score: u8 = 0;
        for i in 0..self.http.len()
            invariant
                routes == self.http_routes(),
                routes.len() == self.http@.len(),
                h@ == host@,
                p@ == path@,
                l@ == listener@,
                best is None ==> forall|j: int| 0 <= j < i ==> !route_matches(#[trigger] routes[j], host@, path@, listener@),
                best matches Some(b) ==> {
                    &&& b < i
                    &&& route_matches(routes[b as int], host@, path@, listener@)
                    &&& score(routes[b as int]) == best_score
                    &&& forall|j: int| 0 <= j < i && route_matches(#[trigger] routes[j], host@, path@, listener@)
                        ==> score(routes[j]) <= best_score
                    &&& forall|j: int| 0 <= j < b && route_matches(#[trigger] routes[j], host@, path@, listener@)
                        ==> score(routes[j]) < best_score
                },
        {
            let route = &self.http[i];
            assert(route@ == routes[i as int]);
            if route.matches(&h, &p, &l) {
                let s = route.precedence();
                match best {
                    None => {
                        best = Some(i);
                        best_score = s;
                    },
                    Some(_) => {
                        if s > best_score {
                            best = Some(i);
                            best_score = s;
                        }
                    },
                }
            }
        }
        match best {
            Some(b) => {
                assert(is_best(routes, b as int, host@, path@, listener@));
                Ok(&self.http[b])
            },
            None => Err(RouterError::NotFound),
        }
    }

    /// The route for a raw TCP connection on `listener`: the first that serves it.
    pub fn get_tcp_route(&self, listener: &str) -> (r: Result<&Route, RouterError>)
        ensures
            match r {
                Ok(route) => exists|i: int|
                    is_first_for_listener(self.tcp_routes(), i, listener@) && route@ == #[trigger] self.tcp_routes()[i],
                Err(e) => e == RouterError::NotFound && forall|j: int|
                    0 <= j < self.tcp_routes().len() ==> !(#[trigger] self.tcp_routes()[j]).listeners.contains(listener@),
            },
    {
        let l = chars_of(listener);
        let ghost routes = self.tcp_routes();
        for i in 0..self.tcp.len()
            invariant
                routes == self.tcp_routes(),
                routes.len() == self.tcp@.len(),
                l@ == listener@,
                forall|j: int| 0 <= j < i ==> !(#[trigger] routes[j]).listeners.contains(listener@),
        {
            let route = &self.tcp[i];
            assert(route@ == routes[i as int]);
            if contains_chars(&route.listeners, &l) {
                assert(is_first_for_listener(routes, i as int, listener@));
                return Ok(route);
            }
        }
        Err(RouterError::NotFound)
    }

    /// The next upstream of the named HTTP service; `NoUpstream` when the service is
    /// unknown or its pool carries no weight.
    pub fn get_service(&self, name: &str) -> (r: Result<&Upstream, RouterError>)
        ensures
            r is Ok <==> (self.registry().http_services().contains_key(name@) && total_weight(
                self.registry().http_services()[name@].pool(),
            ) > 0),
            r matches Ok(u) ==> selectable(self.registry().http_services()[name@].pool(), *u),
            r matches Err(e) ==> e == RouterError::NoUpstream,
    {
        match self.svc_registry.get_http_service_endpoint(name) {
            Some(u) => Ok(u),
            None => Err(RouterError::NoUpstream),
        }
    }

    /// The next upstream of the named TCP service; `NoUpstream` when the service is
    /// unknown or its pool carries no weight.
    pub fn get_tcp_service(&self, name: &str) -> (r: Result<&Upstream, RouterError>)
        ensures
            r is Ok <==> (self.registry().tcp_services().contains_key(name@) && total_weight(
                self.registry().tcp_services()[name@].pool(),
            ) > 0),
            r matches Ok(u) ==> selectable(self.registry().tcp_services()[name@].pool(), *u),
            r matches Err(e) ==> e == RouterError::NoUpstream,
    {
        match self.svc_registry.get_tcp_service_endpoint(name) {
            Some(u) => Ok(u),
            None => Err(RouterError::NoUpstream),
        }
    }
}

} // verus!
