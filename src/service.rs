//! Named services, each owning a load balancer over its upstream pool.
use crate::config::{GatewayConfig, HttpServiceConfig, Upstream};
use crate::load_balancer::{
    selectable, total_weight, LoadBalancer, WeightedRoundRobin, MAX_UPSTREAMS,
};
use vstd::hash_map::StringHashMap;
use vstd::prelude::*;

verus! {

/// A service: a load balancer over a fixed pool.
pub struct Service {
    lb: LoadBalancer,
}

impl Service {
    /// The service's upstream pool.
    pub closed spec fn pool(&self) -> Seq<Upstream> {
        self.lb.strategy().pool()
    }

    pub fn new(upstreams: &[Upstream]) -> (r: Self)
        requires
            upstreams@.len() <= MAX_UPSTREAMS,
        ensures
            r.pool() == upstreams@,
    {
        Service { lb: LoadBalancer::new(WeightedRoundRobin::new(upstreams)) }
    }

    /// The next upstream of the pool, or `None` when the pool carries no weight.
    pub fn next_upstream(&self) -> (r: Option<&Upstream>)
        ensures
            r is Some <==> total_weight(self.pool()) > 0,
            r matches Some(u) ==> selectable(self.pool(), *u),
    {
        self.lb.get_next()
    }
}

/// Whether every pool of `entries` fits a load balancer.
pub open spec fn pools_fit(entries: Seq<(String, HttpServiceConfig)>) -> bool {
    forall|i: int| 0 <= i < entries.len() ==> #[trigger] entries[i].1.upstreams@.len() <= MAX_UPSTREAMS
}

/// Whether `m` maps each name of `entries` to the pool of its last entry, and nothing else.
pub open spec fn registered(m: Map<Seq<char>, Service>, entries: Seq<(String, HttpServiceConfig)>) -> bool {
    &&& forall|k: Seq<char>|
        m.contains_key(k) <==> exists|i: int| 0 <= i < entries.len() && #[trigger] entries[i].0@ == k
    &&& forall|i: int|
        0 <= i < entries.len() && (forall|j: int| i < j < entries.len() ==> entries[j].0@ != entries[i].0@)
            ==> m[#[trigger] entries[i].0@].pool() == entries[i].1.upstreams@
}

/// The services of a configuration's HTTP and TCP sections, in `GatewayConfig`'s pools.
pub open spec fn config_pools_fit(cfg: GatewayConfig) -> bool {
    &&& pools_fit(cfg.http.services@)
    &&& cfg.tcp matches Some(t) ==> pools_fit(t.services@)
}

/// The TCP service entries of a configuration (none without a TCP section).
pub open spec fn tcp_entries(cfg: GatewayConfig) -> Seq<(String, HttpServiceConfig)> {
    match cfg.tcp {
        Some(t) => t.services@,
        None => Seq::empty(),
    }
}

/// Two immutable maps from service name to service, for HTTP and for TCP.
pub struct ServiceRegistry {
    http: StringHashMap<Service>,
    tcp: StringHashMap<Service>,
}

fn build_services(entries: &Vec<(String, HttpServiceConfig)>) -> (r: StringHashMap<Service>)
    requires
        pools_fit(entries@),
    ensures
        registered(r@, entries@),
{
    let mut m: StringHashMap<Service> = StringHashMap::new();
    for i in 0..entries.len()
        invariant
            pools_fit(entries@),
            registered(m@, entries@.subrange(0, i as int)),
    {
        let ghost before = m@;
        let ghost done = entries@.subrange(0, i as int);
        let ghost now = entries@.subrange(0, i + 1);
        assert(entries@[i as int].1.upstreams@.len() <= MAX_UPSTREAMS);
        let svc = Service::new(entries[i].1.upstreams.as_slice());
        m.insert(entries[i].0.clone(), svc);
        assert forall|k: Seq<char>| m@.contains_key(k) <==> exists|j: int|
            0 <= j < now.len() && #[trigger] now[j].0@ == k by {
            if m@.contains_key(k) && k != entries@[i as int].0@ {
                assert(before.contains_key(k));
                let j = choose|j: int| 0 <= j < done.len() && #[trigger] done[j].0@ == k;
                assert(now[j].0@ == k);
            }
            if k == entries@[i as int].0@ {
                assert(now[i as int].0@ == k);
            }
            if exists|j: int| 0 <= j < now.len() && #[trigger] now[j].0@ == k {
                let j = choose|j: int| 0 <= j < now.len() && #[trigger] now[j].0@ == k;
                if j < i {
                    assert(done[j].0@ == k);
                }
            }
        }
        assert forall|a: int|
            0 <= a < now.len() && (forall|b: int| a < b < now.len() ==> now[b].0@ != now[a].0@)
                implies m@[#[trigger] now[a].0@].pool() == now[a].1.upstreams@ by {
            if a < i {
                assert(now[i as int].0@ != now[a].0@);
                assert(done[a] == now[a]);
                assert forall|b: int| a < b < done.len() implies done[b].0@ != done[a].0@ by {
                    assert(done[b] == now[b]);
                }
            }
        }
    }
    assert(entries@.subrange(0, entries@.len() as int) =~= entries@);
    m
}

impl ServiceRegistry {
    /// The HTTP services by name.
    pub closed spec fn http_services(&self) -> Map<Seq<char>, Service> {
        self.http@
    }

    /// The TCP services by name.
    pub closed spec fn tcp_services(&self) -> Map<Seq<char>, Service> {
        self.tcp@
    }

    /// Builds one service per configured name, for HTTP and for TCP.
    pub fn init(gateway_config: &GatewayConfig) -> (r: Self)
        requires
            config_pools_fit(*gateway_config),
        ensures
            registered(r.http_services(), gateway_config.http.services@),
            registered(r.tcp_services(), tcp_entries(*gateway_config)),
    {
        let http = build_services(&gateway_config.http.services);
        let tcp = match &gateway_config.tcp {
            Some(t) => build_services(&t.services),
            None => {
                let empty: Vec<(String, HttpServiceConfig)> = Vec::new();
                build_services(&empty)
            },
        };
        ServiceRegistry { http, tcp }
    }

    /// The next upstream of the named HTTP service; `None` when no such service exists or
    /// its pool carries no weight.
    pub fn get_http_service_endpoint(&self, name: &str) -> (r: Option<&Upstream>)
        ensures
            r is Some <==> (self.http_services().contains_key(name@) && total_weight(
                self.http_services()[name@].pool(),
            ) > 0),
            r matches Some(u) ==> selectable(self.http_services()[name@].pool(), *u),
    {
        match self.http.get(name) {
            Some(svc) => svc.next_upstream(),
            None => None,
        }
    }

    /// The next upstream of the named TCP service; `None` when no such service exists or
    /// its pool carries no weight.
    pub fn get_tcp_service_endpoint(&self, name: &str) -> (r: Option<&Upstream>)
        ensures
            r is Some <==> (self.tcp_services().contains_key(name@) && total_weight(
                self.tcp_services()[name@].pool(),
            ) > 0),
            r matches Some(u) ==> selectable(self.tcp_services()[name@].pool(), *u),
    {
        match self.tcp.get(name) {
            Some(svc) => svc.next_upstream(),
            None => None,
        }
    }
}

} // verus!
