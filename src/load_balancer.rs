//! Weighted round-robin selection over a fixed upstream pool.
use crate::config::Upstream;
use std::sync::atomic::{AtomicUsize, Ordering};
use vstd::arithmetic::div_mod::{
    lemma_add_mod_noop, lemma_mod_add_multiples_vanish, lemma_mod_sub_multiples_vanish,
    lemma_small_mod,
};
use vstd::prelude::*;

verus! {

/// The most upstreams one pool may hold: indices are stored in 16 bits.
pub const MAX_UPSTREAMS: usize = 65535;

/// The selection table: the index of each upstream, repeated `weight` times, in pool order.
pub open spec fn weighted_of(ups: Seq<Upstream>) -> Seq<int>
    decreases ups.len(),
{
    if ups.len() == 0 {
        Seq::empty()
    } else {
        weighted_of(ups.drop_last()) + Seq::new(
            ups.last().weight as nat,
            |k: int| (ups.len() - 1) as int,
        )
    }
}

/// The sum of the weights of a pool.
pub open spec fn total_weight(ups: Seq<Upstream>) -> nat
    decreases ups.len(),
{
    if ups.len() == 0 {
        0
    } else {
        total_weight(ups.drop_last()) + ups.last().weight as nat
    }
}

/// How many times `v` occurs in `s`.
pub open spec fn occurrences(s: Seq<int>, v: int) -> nat
    decreases s.len(),
{
    if s.len() == 0 {
        0
    } else {
        occurrences(s.drop_last(), v) + if s.last() == v {
            1nat
        } else {
            0nat
        }
    }
}

/// The index of the upstream that ticket `t` selects (meaningful when the pool has weight).
pub open spec fn selected(ups: Seq<Upstream>, t: int) -> int {
    weighted_of(ups)[t % (total_weight(ups) as int)]
}

/// Whether some ticket selects `u` from `ups`.
pub open spec fn selectable(ups: Seq<Upstream>, u: Upstream) -> bool {
    exists|t: nat| u == ups[#[trigger] selected(ups, t as int)]
}

/// The upstream indices chosen by `n` consecutive tickets starting at `t`.
pub open spec fn selections(ups: Seq<Upstream>, t: int, n: nat) -> Seq<int> {
    Seq::new(n, |k: int| selected(ups, t + k))
}

proof fn lemma_occurrences_concat(a: Seq<int>, b: Seq<int>, v: int)
    ensures
        occurrences(a + b, v) == occurrences(a, v) + occurrences(b, v),
    decreases b.len(),
{
    if b.len() == 0 {
        assert(a + b =~= a);
    } else {
        assert((a + b).drop_last() =~= a + b.drop_last());
        lemma_occurrences_concat(a, b.drop_last(), v);
    }
}

proof fn lemma_occurrences_const(n: nat, x: int, v: int)
    ensures
        occurrences(Seq::new(n, |k: int| x), v) == if x == v {
            n
        } else {
            0
        },
    decreases n,
{
    if n > 0 {
        assert(Seq::new(n, |k: int| x).drop_last() =~= Seq::new((n - 1) as nat, |k: int| x));
        lemma_occurrences_const((n - 1) as nat, x, v);
    }
}

proof fn lemma_occurrences_absent(s: Seq<int>, v: int)
    requires
        forall|k: int| 0 <= k < s.len() ==> s[k] != v,
    ensures
        occurrences(s, v) == 0,
    decreases s.len(),
{
    if s.len() > 0 {
        lemma_occurrences_absent(s.drop_last(), v);
    }
}

/// The table has one entry per unit of weight, each a valid index.
pub proof fn lemma_weighted_shape(ups: Seq<Upstream>)
    ensures
        weighted_of(ups).len() == total_weight(ups),
        forall|k: int|
            0 <= k < weighted_of(ups).len() ==> 0 <= #[trigger] weighted_of(ups)[k] < ups.len(),
    decreases ups.len(),
{
    if ups.len() > 0 {
        lemma_weighted_shape(ups.drop_last());
    }
}

/// Upstream `i` occurs in the table exactly as often as its weight.
pub proof fn lemma_weighted_count(ups: Seq<Upstream>, i: int)
    requires
        0 <= i < ups.len(),
    ensures
        occurrences(weighted_of(ups), i) == ups[i].weight,
    decreases ups.len(),
{
    let n = ups.len() - 1;
    let head = weighted_of(ups.drop_last());
    let tail = Seq::new(ups.last().weight as nat, |k: int| n as int);
    lemma_occurrences_concat(head, tail, i);
    lemma_occurrences_const(ups.last().weight as nat, n as int, i);
    if i < n {
        lemma_weighted_count(ups.drop_last(), i);
    } else {
        lemma_weighted_shape(ups.drop_last());
        lemma_occurrences_absent(head, i);
    }
}

/// Any `len` consecutive positions of a cyclic reading of `s` hold each value as often as `s`.
proof fn lemma_rotation_count(s: Seq<int>, t: int, v: int)
    requires
        s.len() > 0,
        t >= 0,
    ensures
        occurrences(Seq::new(s.len(), |k: int| s[(t + k) % (s.len() as int)]), v) == occurrences(
            s,
            v,
        ),
{
    let m = s.len() as int;
    let r = t % m;
    let w = Seq::new(s.len(), |k: int| s[(t + k) % m]);
    assert forall|k: int| 0 <= k < m implies #[trigger] w[k] == (s.subrange(r, m) + s.subrange(
        0,
        r,
    ))[k] by {
        lemma_add_mod_noop(t, k, m);
        lemma_small_mod(k as nat, m as nat);
        if r + k < m {
            lemma_small_mod((r + k) as nat, m as nat);
        } else {
            lemma_mod_sub_multiples_vanish(r + k, m);
            lemma_small_mod((r + k - m) as nat, m as nat);
        }
    }
    assert(w =~= s.subrange(r, m) + s.subrange(0, r));
    assert(s =~= s.subrange(0, r) + s.subrange(r, m));
    lemma_occurrences_concat(s.subrange(r, m), s.subrange(0, r), v);
    lemma_occurrences_concat(s.subrange(0, r), s.subrange(r, m), v);
}

/// Cycle: selection is periodic with period `Σw`, and any `Σw` consecutive selections
/// choose upstream `i` exactly `w_i` times.
pub proof fn lemma_cycle(ups: Seq<Upstream>, t: nat, i: int)
    requires
        total_weight(ups) > 0,
        0 <= i < ups.len(),
    ensures
        selected(ups, (t + total_weight(ups)) as int) == selected(ups, t as int),
        occurrences(selections(ups, t as int, total_weight(ups)), i) == ups[i].weight,
{
    let m = total_weight(ups) as int;
    let s = weighted_of(ups);
    lemma_weighted_shape(ups);
    lemma_mod_add_multiples_vanish(t as int, m);
    assert(selections(ups, t as int, total_weight(ups)) =~= Seq::new(
        s.len(),
        |k: int| s[(t + k) % m],
    ));
    lemma_rotation_count(s, t as int, i);
    lemma_weighted_count(ups, i);
}

/// Distribution: over `N = c·Σw` selections from any starting ticket, upstream `i` is chosen
/// exactly `N·w_i/Σw` times, which lies within `ceil(N·w_i/Σw)` and `floor(N·w_i/Σw) + 1`.
pub proof fn lemma_distribution(ups: Seq<Upstream>, t: nat, c: nat, i: int)
    requires
        total_weight(ups) > 0,
        0 <= i < ups.len(),
    ensures
        occurrences(selections(ups, t as int, c * total_weight(ups)), i) == c * ups[i].weight,
        ({
            let n = c * total_weight(ups);
            let w = ups[i].weight as int;
            let tw = total_weight(ups) as int;
            &&& (n * w + tw - 1) / tw <= occurrences(selections(ups, t as int, n), i)
            &&& occurrences(selections(ups, t as int, n), i) <= (n * w) / tw + 1
        }),
    decreases c,
{
    let tw = total_weight(ups);
    let w = ups[i].weight as int;
    if c == 0 {
        assert(c * tw == 0) by (nonlinear_arith)
            requires
                c == 0,
        ;
        assert(selections(ups, t as int, 0) =~= Seq::<int>::empty());
    } else {
        let p = ((c - 1) * tw) as nat;
        lemma_distribution(ups, t, (c - 1) as nat, i);
        assert(c * tw == p + tw) by (nonlinear_arith)
            requires
                p == (c - 1) * tw,
                c > 0,
        ;
        let whole = selections(ups, t as int, c * tw);
        let first = selections(ups, t as int, p);
        let last = selections(ups, (t + p) as int, tw);
        assert(whole =~= first + last);
        lemma_occurrences_concat(first, last, i);
        lemma_cycle(ups, (t + p) as nat, i);
        assert(occurrences(first, i) == (c - 1) * w);
        assert(occurrences(last, i) == w);
        assert((c - 1) * w + w == c * w) by (nonlinear_arith);
        assert(occurrences(whole, i) == c * w);
    }
    let n = (c * tw) as int;
    let twi = tw as int;
    assert((n * w + twi - 1) / twi == c * w && (n * w) / twi == c * w) by (nonlinear_arith)
        requires
            n == c * twi,
            twi > 0,
            w >= 0,
    {
        assert(n * w + twi - 1 == (c * w) * twi + (twi - 1));
        assert(n * w == (c * w) * twi);
    }
}

/// Selection over an upstream pool in weighted round-robin order.
pub trait LoadBalancerStrategy {
    /// Whether `select` yields an upstream at all.
    spec fn has_upstream(&self) -> bool;

    /// Whether `u` may come out of `select`.
    spec fn may_select(&self, u: Upstream) -> bool;

    /// The next upstream, or `None` when the pool carries no weight.
    fn select(&self) -> (r: Option<&Upstream>)
        ensures
            r is Some <==> self.has_upstream(),
            r matches Some(u) ==> self.may_select(*u),
    ;
}

/// Weighted round-robin: a flattened table of upstream indices and a shared ticket counter.
pub struct WeightedRoundRobin {
    upstreams: Vec<Upstream>,
    weighted: Vec<u16>,
    next_index: AtomicUsize,
}

fn copy_upstream(u: &Upstream) -> (r: Upstream)
    ensures
        r == *u,
{
    Upstream { target: u.target.clone(), weight: u.weight }
}

impl WeightedRoundRobin {
    #[verifier::type_invariant]
    spec fn well_formed(&self) -> bool {
        &&& self.upstreams@.len() <= MAX_UPSTREAMS
        &&& self.weighted@.map_values(|x: u16| x as int) == weighted_of(self.upstreams@)
    }

    /// The pool, in configuration order.
    pub closed spec fn pool(&self) -> Seq<Upstream> {
        self.upstreams@
    }

    /// Builds the selection table for `upstreams`.
    pub fn new(upstreams: &[Upstream]) -> (r: Self)
        requires
            upstreams@.len() <= MAX_UPSTREAMS,
        ensures
            r.pool() == upstreams@,
    {
        let mut servers: Vec<Upstream> = Vec::new();
        let mut weighted: Vec<u16> = Vec::new();
        let mut index: usize = 0;
        while index < upstreams.len()
            invariant
                index <= upstreams@.len() <= MAX_UPSTREAMS,
                servers@ == upstreams@.subrange(0, index as int),
                weighted@.map_values(|x: u16| x as int) == weighted_of(servers@),
            decreases upstreams@.len() - index,
        {
            let u = copy_upstream(&upstreams[index]);
            let w = u.weight;
            let mut j: u32 = 0;
            while j < w
                invariant
                    j <= w,
                    index < upstreams@.len() <= MAX_UPSTREAMS,
                    weighted@.map_values(|x: u16| x as int) == weighted_of(servers@) + Seq::new(
                        j as nat,
                        |k: int| index as int,
                    ),
                decreases w - j,
            {
                let ghost before = weighted@;
                weighted.push(index as u16);
                assert(weighted@.map_values(|x: u16| x as int) =~= before.map_values(
                    |x: u16| x as int,
                ).push(index as int));
                assert(weighted_of(servers@) + Seq::new((j + 1) as nat, |k: int| index as int)
                    =~= (weighted_of(servers@) + Seq::new(j as nat, |k: int| index as int)).push(
                    index as int,
                ));
                j = j + 1;
            }
            let ghost prev = servers@;
            servers.push(u);
            assert(servers@.drop_last() =~= prev);
            assert(servers@ =~= upstreams@.subrange(0, index + 1));
            index = index + 1;
        }
        assert(servers@ =~= upstreams@);
        WeightedRoundRobin { upstreams: servers, weighted, next_index: AtomicUsize::new(0) }
    }

    /// The upstream that ticket `ticket` selects: entry `ticket mod Σw` of the table.
    pub fn select_at(&self, ticket: usize) -> (r: Option<&Upstream>)
        ensures
            match r {
                None => total_weight(self.pool()) == 0,
                Some(u) => total_weight(self.pool()) > 0 && *u == self.pool()[selected(
                    self.pool(),
                    ticket as int,
                )],
            },
    {
        proof {
            use_type_invariant(self);
            lemma_weighted_shape(self.upstreams@);
        }
        let n = self.weighted.len();
        assert(self.weighted@.map_values(|x: u16| x as int).len() == n);
        if n == 0 {
            return None;
        }
        let slot = ticket % n;
        assert(self.weighted@.map_values(|x: u16| x as int)[slot as int] == self.weighted@[slot as int] as int);
        let idx = self.weighted[slot] as usize;
        Some(&self.upstreams[idx])
    }
}

impl LoadBalancerStrategy for WeightedRoundRobin {
    open spec fn has_upstream(&self) -> bool {
        total_weight(self.pool()) > 0
    }

    open spec fn may_select(&self, u: Upstream) -> bool {
        selectable(self.pool(), u)
    }

    /// Takes the next ticket from the shared counter and selects with it; concurrent
    /// callers take distinct consecutive tickets.
    fn select(&self) -> (r: Option<&Upstream>) {
        let ticket = self.next_index.fetch_add(1, Ordering::Relaxed);
        let r = self.select_at(ticket);
        assert(r matches Some(u) ==> *u == self.pool()[selected(self.pool(), ticket as nat as int)]);
        r
    }
}

/// A service's load balancer.
pub struct LoadBalancer {
    strategy: WeightedRoundRobin,
}

impl LoadBalancer {
    /// The strategy this balancer delegates to.
    pub closed spec fn strategy(&self) -> WeightedRoundRobin {
        self.strategy
    }

    pub fn new(strategy: WeightedRoundRobin) -> (r: Self)
        ensures
            r.strategy() == strategy,
    {
        LoadBalancer { strategy }
    }

    /// The next upstream of the strategy, or `None` when its pool carries no weight.
    pub fn get_next(&self) -> (r: Option<&Upstream>)
        ensures
            r is Some <==> self.strategy().has_upstream(),
            r matches Some(u) ==> self.strategy().may_select(*u),
    {
        self.strategy.select()
    }
}

} // verus!
