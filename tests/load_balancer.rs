use portiq::config::Upstream;
use portiq::load_balancer::{LoadBalancer, LoadBalancerStrategy, WeightedRoundRobin};
use std::collections::HashMap;

fn upstream(target: &str, weight: u32) -> Upstream {
    Upstream { target: target.to_string(), weight }
}

#[test]
fn test_weight_distribution() {
    let upstreams = vec![upstream("server1", 3), upstream("server2", 1)];
    let lb = WeightedRoundRobin::new(&upstreams);

    let mut counts = HashMap::new();
    for _ in 0..1000 {
        if let Some(upstream) = lb.select() {
            *counts.entry(upstream.target.clone()).or_insert(0) += 1;
        }
    }

    assert!(counts["server1"] > 700 && counts["server1"] < 800);
    assert!(counts["server2"] > 200 && counts["server2"] < 300);
}

#[test]
fn test_round_robin_cycle() {
    let upstreams = vec![upstream("server1", 1), upstream("server2", 1)];
    let lb = WeightedRoundRobin::new(&upstreams);

    let server1 = lb.select().unwrap();
    let server2 = lb.select().unwrap();
    let server3 = lb.select().unwrap();

    assert_eq!(server1.target, upstreams[0].target);
    assert_eq!(server2.target, upstreams[1].target);
    assert_eq!(server3.target, upstreams[0].target);
}

#[test]
fn test_no_upstream_returns_none() {
    let upstreams: Vec<Upstream> = vec![];
    let lb = WeightedRoundRobin::new(&upstreams);
    assert!(lb.select().is_none())
}

#[test]
fn test_zero_weight_returns_none() {
    let upstreams = vec![upstream("server1", 0), upstream("server2", 0)];
    let lb = WeightedRoundRobin::new(&upstreams);
    assert!(lb.select().is_none())
}

#[test]
fn distribution_is_exact_over_whole_periods() {
    let upstreams = vec![upstream("a", 2), upstream("b", 3), upstream("c", 0)];
    let lb = WeightedRoundRobin::new(&upstreams);
    let mut counts: HashMap<String, u32> = HashMap::new();
    for _ in 0..50 {
        let u = lb.select().unwrap();
        *counts.entry(u.target.clone()).or_insert(0) += 1;
    }
    assert_eq!(counts.get("a"), Some(&20));
    assert_eq!(counts.get("b"), Some(&30));
    assert_eq!(counts.get("c"), None);
}

#[test]
fn cycle_repeats_with_period_of_total_weight() {
    let upstreams = vec![upstream("a", 2), upstream("b", 1)];
    let lb = WeightedRoundRobin::new(&upstreams);
    let first: Vec<String> = (0..3).map(|_| lb.select().unwrap().target.clone()).collect();
    let second: Vec<String> = (0..3).map(|_| lb.select().unwrap().target.clone()).collect();
    assert_eq!(first, vec!["a", "a", "b"]);
    assert_eq!(first, second);
}

#[test]
fn select_at_reads_table_modulo_total_weight() {
    let upstreams = vec![upstream("a", 1), upstream("b", 2)];
    let lb = WeightedRoundRobin::new(&upstreams);
    assert_eq!(lb.select_at(0).unwrap().target, "a");
    assert_eq!(lb.select_at(1).unwrap().target, "b");
    assert_eq!(lb.select_at(2).unwrap().target, "b");
    assert_eq!(lb.select_at(3).unwrap().target, "a");
    assert_eq!(lb.select_at(usize::MAX).unwrap().target, "a");
}

#[test]
fn load_balancer_delegates_to_strategy() {
    let upstreams = vec![upstream("only", 1)];
    let lb = LoadBalancer::new(WeightedRoundRobin::new(&upstreams));
    assert_eq!(lb.get_next().unwrap().target, "only");
    assert_eq!(lb.get_next().unwrap().target, "only");
    let empty = LoadBalancer::new(WeightedRoundRobin::new(&[]));
    assert!(empty.get_next().is_none());
}
