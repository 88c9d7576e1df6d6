//! Token-bucket rate limiting, keyed by client or header, in exact integer arithmetic.
//!
//! Time is a count of milliseconds on a monotonic clock. A bucket counts tokens in units of
//! `1 / period_ms` of a token, so that refilling `limit` tokens per `period_ms` adds exactly
//! `limit` units per elapsed millisecond.
use crate::config::{MiddlewareConfig, RateLimitKeySource};
use crate::headers::{header_value, Header};
use vstd::hash_map::StringHashMap;
use vstd::prelude::*;
use vstd::string::StringExecFns;

verus! {

/// A bucket as values: capacity in tokens, period, available units, last refill time.
pub struct BucketView {
    pub capacity: nat,
    pub period: nat,
    pub available: nat,
    pub last_refill: nat,
}

/// A bucket created at `now`: full.
pub open spec fn fresh_bucket(capacity: nat, period: nat, now: nat) -> BucketView {
    BucketView { capacity, period, available: capacity * period, last_refill: now }
}

/// The bucket after refilling up to `now`: `capacity` tokens per period, capped at capacity.
pub open spec fn refilled(b: BucketView, now: nat) -> BucketView {
    if now > b.last_refill && b.capacity > 0 {
        let grown: int = b.available + b.capacity * (now - b.last_refill);
        let cap: int = (b.capacity * b.period) as int;
        BucketView { available: (if grown < cap { grown } else { cap }) as nat, last_refill: now, ..b }
    } else {
        b
    }
}

/// Whether a request at `now` is admitted.
pub open spec fn admits(b: BucketView, now: nat) -> bool {
    refilled(b, now).available >= b.period
}

/// The bucket after a request at `now`: refilled, less one token when admitted.
pub open spec fn after_request(b: BucketView, now: nat) -> BucketView {
    let r = refilled(b, now);
    if admits(b, now) {
        BucketView { available: (r.available - b.period) as nat, ..r }
    } else {
        r
    }
}

/// Whole seconds until one token is available: `ceil((1 - available) / refill_rate)`.
pub open spec fn retry_seconds(b: BucketView) -> nat {
    if b.available >= b.period {
        0
    } else {
        ((b.period - b.available) + 1000 * b.capacity - 1) as nat / (1000 * b.capacity)
    }
}

/// A bucket's invariant: a positive capacity and period, and at most `capacity` tokens.
pub open spec fn bucket_ok(b: BucketView) -> bool {
    b.capacity > 0 && b.period > 0 && b.available <= b.capacity * b.period
}

/// The bucket after `k` requests at the one instant `now`.
pub open spec fn burst(b: BucketView, now: nat, k: nat) -> BucketView
    decreases k,
{
    if k == 0 {
        b
    } else {
        after_request(burst(b, now, (k - 1) as nat), now)
    }
}

proof fn lemma_burst(capacity: nat, period: nat, t: nat, k: nat)
    requires
        capacity > 0,
        period > 0,
        k <= capacity,
    ensures
        burst(fresh_bucket(capacity, period, t), t, k) == (BucketView {
            capacity,
            period,
            available: ((capacity - k) * period) as nat,
            last_refill: t,
        }),
    decreases k,
{
    if k > 0 {
        lemma_burst(capacity, period, t, (k - 1) as nat);
        assert((capacity - (k - 1)) * period == (capacity - k) * period + period) by (nonlinear_arith);
    }
}

/// Rate limit: from a fresh bucket of `limit` tokens per `period` ms, `limit` requests at
/// one instant `t` are all admitted, the next one at `t` is refused, and a request made a
/// whole period later is admitted again.
pub proof fn lemma_rate_limit(limit: nat, period: nat, t: nat, later: nat)
    requires
        limit > 0,
        period > 0,
        later >= t + period,
    ensures
        forall|k: nat| k < limit ==> admits(#[trigger] burst(fresh_bucket(limit, period, t), t, k), t),
        !admits(burst(fresh_bucket(limit, period, t), t, limit), t),
        admits(burst(fresh_bucket(limit, period, t), t, limit + 1), later),
{
    assert forall|k: nat| k < limit implies admits(#[trigger] burst(fresh_bucket(limit, period, t), t, k), t) by {
        lemma_burst(limit, period, t, k);
        assert((limit - k) * period >= period) by (nonlinear_arith)
            requires
                k < limit,
                period > 0,
        ;
    }
    lemma_burst(limit, period, t, limit);
    assert((limit - limit) * period == 0) by (nonlinear_arith);
    assert(limit * (later - t) >= period) by (nonlinear_arith)
        requires
            limit > 0,
            later - t >= period,
    ;
    assert(limit * period >= period) by (nonlinear_arith)
        requires
            limit > 0,
    ;
}

/// One key's token bucket.
#[derive(Clone, Copy, Debug)]
pub struct TokenBucket {
    capacity: u32,
    period_ms: u64,
    available: u128,
    last_refill: u64,
}

impl View for TokenBucket {
    type V = BucketView;

    closed spec fn view(&self) -> BucketView {
        BucketView {
            capacity: self.capacity as nat,
            period: self.period_ms as nat,
            available: self.available as nat,
            last_refill: self.last_refill as nat,
        }
    }
}

impl TokenBucket {
    /// A full bucket of `capacity` tokens refilled over `period_ms`, created at `now_ms`.
    pub fn new(capacity: u32, period_ms: u64, now_ms: u64) -> (r: Self)
        requires
            capacity > 0,
            period_ms > 0,
        ensures
            r@ == fresh_bucket(capacity as nat, period_ms as nat, now_ms as nat),
            bucket_ok(r@),
    {
        assert(capacity as nat * period_ms as nat <= 0xffff_ffff_ffff_ffff_ffff_ffff_ffff_ffff) by (nonlinear_arith)
            requires
                capacity <= 0xffff_ffff,
                period_ms <= 0xffff_ffff_ffff_ffff,
        ;
        TokenBucket {
            capacity,
            period_ms,
            available: capacity as u128 * period_ms as u128,
            last_refill: now_ms,
        }
    }

    fn refill(&mut self, now_ms: u64)
        requires
            bucket_ok(old(self)@),
        ensures
            final(self)@ == refilled(old(self)@, now_ms as nat),
            bucket_ok(final(self)@),
    {
        if now_ms > self.last_refill {
            let elapsed = (now_ms - self.last_refill) as u128;
            proof {
                assert(self.capacity as nat * self.period_ms as nat <= 0xffff_ffff_ffff_ffff_ffff_ffff_ffff_ffff) by (nonlinear_arith)
                    requires
                        self.capacity <= 0xffff_ffff,
                        self.period_ms <= 0xffff_ffff_ffff_ffff,
                ;
                assert(self.capacity as nat * elapsed as nat <= 0xffff_ffff_ffff_ffff_ffff_ffff) by (nonlinear_arith)
                    requires
                        self.capacity <= 0xffff_ffff,
                        elapsed <= 0xffff_ffff_ffff_ffff,
                ;
                assert(self.capacity as nat * self.period_ms as nat <= 0xffff_ffff_ffff_ffff_ffff_ffff) by (nonlinear_arith)
                    requires
                        self.capacity <= 0xffff_ffff,
                        self.period_ms <= 0xffff_ffff_ffff_ffff,
                ;
            }
            let cap = self.capacity as u128 * self.period_ms as u128;
            let grown = self.available + self.capacity as u128 * elapsed;
            self.available = if grown < cap { grown } else { cap };
            self.last_refill = now_ms;
        }
    }

    /// Refills up to `now_ms`, then takes one token if there is one.
    pub fn allow(&mut self, now_ms: u64) -> (r: bool)
        requires
            bucket_ok(old(self)@),
        ensures
            r == admits(old(self)@, now_ms as nat),
            final(self)@ == after_request(old(self)@, now_ms as nat),
            bucket_ok(final(self)@),
    {
        self.refill(now_ms);
        if self.available >= self.period_ms as u128 {
            self.available = self.available - self.period_ms as u128;
            true
        } else {
            false
        }
    }

    /// Whole seconds until a token is available, without refilling.
    pub fn retry_after_secs(&self) -> (r: u64)
        requires
            bucket_ok(self@),
        ensures
            r == retry_seconds(self@),
    {
        if self.available >= self.period_ms as u128 {
            0
        } else {
            let need = self.period_ms as u128 - self.available;
            let rate = 1000u128 * self.capacity as u128;
            let secs = (need + rate - 1) / rate;
            assert(secs <= need) by (nonlinear_arith)
                requires
                    secs as int == (need as int + rate as int - 1) / (rate as int),
                    rate >= 1000,
                    need >= 1,
            ;
            secs as u64
        }
    }
}

/// The outcome of a rate-limit check.
#[derive(Clone, Copy, Debug, PartialEq, Eq, Structural)]
pub enum RateDecision {
    /// The request goes on down the chain.
    Allow,
    /// The request is answered 429, to be retried after this many seconds.
    Reject(u64),
}

/// What the chain does after a rate-limit check.
#[derive(Clone, Copy, Debug, PartialEq, Eq, Structural)]
pub enum ChainStep {
    /// Go on to the next link.
    Proceed,
    /// Stop the chain and answer with this status and `Retry-After` in seconds.
    Reply(u16, u64),
}

/// An admitted request goes on; a refused one stops the chain with 429 and the wait.
pub fn step_after_check(d: RateDecision) -> (r: ChainStep)
    ensures
        r == match d {
            RateDecision::Allow => ChainStep::Proceed,
            RateDecision::Reject(secs) => ChainStep::Reply(429, secs),
        },
{
    match d {
        RateDecision::Allow => ChainStep::Proceed,
        RateDecision::Reject(secs) => ChainStep::Reply(429, secs),
    }
}

/// A rate limiter over keys.
pub trait RateLimiter {
    /// The limiter's own invariant.
    spec fn sound(&self) -> bool;

    /// The buckets by key.
    spec fn bucket_map(&self) -> Map<Seq<char>, BucketView>;

    /// The bucket a request for `key` at `now` is checked against: the stored one, or a
    /// fresh full one for a key never seen.
    spec fn current(&self, key: Seq<char>, now: nat) -> BucketView;

    /// Whether a request for `key` at `now` is admitted.
    spec fn admits_key(&self, key: Seq<char>, now: nat) -> bool;

    /// The seconds to wait before `key` has a token; `None` for a key never seen.
    spec fn wait_for(&self, key: Seq<char>) -> Option<u64>;

    /// Admits or refuses one request for `key` at `now_ms`.
    fn allow(&mut self, key: &str, now_ms: u64) -> (r: bool)
        requires
            old(self).sound(),
        ensures
            final(self).sound(),
            r == old(self).admits_key(key@, now_ms as nat),
            r == admits(old(self).current(key@, now_ms as nat), now_ms as nat),
            final(self).bucket_map() == old(self).bucket_map().insert(
                key@,
                after_request(old(self).current(key@, now_ms as nat), now_ms as nat),
            ),
            forall|k: Seq<char>, t: nat|
                k != key@ ==> #[trigger] final(self).current(k, t) == old(self).current(k, t),
            forall|t: nat| #[trigger] final(self).current(key@, t) == after_request(
                old(self).current(key@, now_ms as nat),
                now_ms as nat,
            ),
    ;

    /// Whole seconds until `key` has a token again; `None` for a key never seen.
    fn retry_after(&self, key: &str) -> (r: Option<u64>)
        requires
            self.sound(),
        ensures
            r == self.wait_for(key@),
    ;
}

/// A limiter with one token bucket per key, each `limit` tokens per `period_ms`.
pub struct TokenBucketRateLimiter {
    source: RateLimitKeySource,
    limit: u32,
    period_ms: u64,
    store: StringHashMap<TokenBucket>,
}

impl TokenBucketRateLimiter {
    /// Positive limit and period; every bucket sound and of this limiter's shape.
    pub closed spec fn well_formed(&self) -> bool {
        &&& self.limit > 0
        &&& self.period_ms > 0
        &&& forall|k: Seq<char>| #[trigger] self.store@.contains_key(k) ==> {
            let b = self.store@[k]@;
            &&& bucket_ok(b)
            &&& b.capacity == self.limit
            &&& b.period == self.period_ms
        }
    }

    /// The buckets by key.
    pub closed spec fn buckets(&self) -> Map<Seq<char>, BucketView> {
        self.store@.map_values(|b: TokenBucket| b@)
    }

    /// Tokens per period.
    pub closed spec fn limit_spec(&self) -> nat {
        self.limit as nat
    }

    /// The period, in milliseconds.
    pub closed spec fn period_spec(&self) -> nat {
        self.period_ms as nat
    }

    /// Where keys come from.
    pub closed spec fn source_spec(&self) -> RateLimitKeySource {
        self.source
    }

    /// The bucket that a request for `key` at `now` is checked against: the stored one, or a
    /// fresh one for a key never seen.
    pub open spec fn bucket_for(&self, key: Seq<char>, now: nat) -> BucketView {
        if self.buckets().contains_key(key) {
            self.buckets()[key]
        } else {
            fresh_bucket(self.limit_spec(), self.period_spec(), now)
        }
    }

    /// Where this limiter takes its keys from.
    pub fn source(&self) -> (r: &RateLimitKeySource)
        ensures
            *r == self.source_spec(),
    {
        &self.source
    }

    /// A limiter with no buckets yet.
    pub fn new(source: RateLimitKeySource, limit: u32, period_ms: u64) -> (r: Self)
        requires
            limit > 0,
            period_ms > 0,
        ensures
            r.well_formed(),
            r.buckets() == Map::<Seq<char>, BucketView>::empty(),
            r.limit_spec() == limit,
            r.period_spec() == period_ms,
            r.source_spec() == source,
    {
        let r = TokenBucketRateLimiter { source, limit, period_ms, store: StringHashMap::new() };
        assert(r.store@.map_values(|b: TokenBucket| b@) =~= Map::<Seq<char>, BucketView>::empty());
        r
    }

    /// Admits or refuses a request for `key` at `now_ms`; a refusal carries the seconds to
    /// wait.
    pub fn check(&mut self, key: &str, now_ms: u64) -> (r: RateDecision)
        requires
            old(self).well_formed(),
        ensures
            final(self).well_formed(),
            final(self).limit_spec() == old(self).limit_spec(),
            final(self).period_spec() == old(self).period_spec(),
            final(self).source_spec() == old(self).source_spec(),
            final(self).buckets() == old(self).buckets().insert(
                key@,
                after_request(old(self).bucket_for(key@, now_ms as nat), now_ms as nat),
            ),
            r == if admits(old(self).bucket_for(key@, now_ms as nat), now_ms as nat) {
                RateDecision::Allow
            } else {
                RateDecision::Reject(
                    retry_seconds(after_request(old(self).bucket_for(key@, now_ms as nat), now_ms as nat)) as u64,
                )
            },
    {
        let mut bucket = match self.store.get(key) {
            Some(b) => *b,
            None => TokenBucket::new(self.limit, self.period_ms, now_ms),
        };
        assert(bucket@ == old(self).bucket_for(key@, now_ms as nat));
        let admitted = bucket.allow(now_ms);
        let wait = bucket.retry_after_secs();
        self.store.insert(String::from_str(key), bucket);
        assert(self.store@.map_values(|b: TokenBucket| b@) =~= old(self).buckets().insert(key@, bucket@));
        if admitted {
            RateDecision::Allow
        } else {
            RateDecision::Reject(wait)
        }
    }
}

impl RateLimiter for TokenBucketRateLimiter {
    open spec fn sound(&self) -> bool {
        self.well_formed()
    }

    open spec fn bucket_map(&self) -> Map<Seq<char>, BucketView> {
        self.buckets()
    }

    open spec fn current(&self, key: Seq<char>, now: nat) -> BucketView {
        self.bucket_for(key, now)
    }

    open spec fn admits_key(&self, key: Seq<char>, now: nat) -> bool {
        admits(self.bucket_for(key, now), now)
    }

    open spec fn wait_for(&self, key: Seq<char>) -> Option<u64> {
        if self.buckets().contains_key(key) {
            Some(retry_seconds(self.buckets()[key]) as u64)
        } else {
            None
        }
    }

    fn allow(&mut self, key: &str, now_ms: u64) -> (r: bool) {
        let d = self.check(key, now_ms);
        d == RateDecision::Allow
    }

    fn retry_after(&self, key: &str) -> (r: Option<u64>) {
        match self.store.get(key) {
            Some(b) => Some(b.retry_after_secs()),
            None => None,
        }
    }
}

/// Makes one rate limiter per rate-limit middleware; each owns its buckets.
pub struct RateLimiterFactory;

impl RateLimiterFactory {
    pub fn new() -> Self {
        RateLimiterFactory
    }

    /// A limiter with no buckets for a rate-limit configuration; `None` for any other
    /// middleware or for a zero limit or period, which validation rules out.
    pub fn create(&self, config: &MiddlewareConfig) -> (r: Option<TokenBucketRateLimiter>)
        ensures
            match *config {
                MiddlewareConfig::RateLimit(c) => if c.limit > 0 && c.period_ms > 0 {
                    r matches Some(l) && l.well_formed() && l.buckets() == Map::<Seq<char>, BucketView>::empty()
                        && l.limit_spec() == c.limit && l.period_spec() == c.period_ms && l.source_spec() == c.source
                } else {
                    r is None
                },
                _ => r is None,
            },
    {
        match config {
            MiddlewareConfig::RateLimit(c) => {
                if c.limit > 0 && c.period_ms > 0 {
                    let source = match &c.source {
                        RateLimitKeySource::IP(Some(h)) => RateLimitKeySource::IP(Some(h.clone())),
                        RateLimitKeySource::IP(None) => RateLimitKeySource::IP(None),
                        RateLimitKeySource::RequestHeader(h) => RateLimitKeySource::RequestHeader(h.clone()),
                    };
                    Some(TokenBucketRateLimiter::new(source, c.limit, c.period_ms))
                } else {
                    None
                }
            },
            _ => None,
        }
    }
}

/// The rate-limit middlewares of `defined`, by position: their names, in order.
pub open spec fn rate_limit_names(defined: Seq<(String, MiddlewareConfig)>) -> Seq<Seq<char>>
    decreases defined.len(),
{
    if defined.len() == 0 {
        Seq::empty()
    } else {
        let rest = rate_limit_names(defined.drop_last());
        match defined.last().1 {
            MiddlewareConfig::RateLimit(c) => if c.limit > 0 && c.period_ms > 0 {
                rest.push(defined.last().0@)
            } else {
                rest
            },
            _ => rest,
        }
    }
}

/// One fresh limiter for each rate-limit middleware of `defined` with a positive limit and
/// period, under its name, in order.
pub fn rate_limiters_of(defined: &Vec<(String, MiddlewareConfig)>) -> (r: Vec<(String, TokenBucketRateLimiter)>)
    ensures
        r@.map_values(|e: (String, TokenBucketRateLimiter)| e.0@) == rate_limit_names(defined@),
        forall|i: int| 0 <= i < r@.len() ==> (#[trigger] r@[i]).1.well_formed() && r@[i].1.buckets() == Map::<
            Seq<char>,
            BucketView,
        >::empty(),
{
    let factory = RateLimiterFactory::new();
    let mut r: Vec<(String, TokenBucketRateLimiter)> = Vec::new();
    for i in 0..defined.len()
        invariant
            r@.map_values(|e: (String, TokenBucketRateLimiter)| e.0@) == rate_limit_names(defined@.subrange(0, i as int)),
            forall|j: int| 0 <= j < r@.len() ==> (#[trigger] r@[j]).1.well_formed() && r@[j].1.buckets() == Map::<
                Seq<char>,
                BucketView,
            >::empty(),
    {
        assert(defined@.subrange(0, i + 1).drop_last() =~= defined@.subrange(0, i as int));
        let ghost before = r@;
        match factory.create(&defined[i].1) {
            Some(limiter) => {
                r.push((defined[i].0.clone(), limiter));
                assert(r@.map_values(|e: (String, TokenBucketRateLimiter)| e.0@) =~= before.map_values(
                    |e: (String, TokenBucketRateLimiter)| e.0@,
                ).push(defined@[i as int].0@));
            },
            None => {},
        }
    }
    assert(defined@.subrange(0, defined@.len() as int) =~= defined@);
    r
}

/// The rate-limit key of a request: per `source`, the client IP, or a header value.
pub open spec fn key_of(source: RateLimitKeySource, headers: Seq<Header>, client_ip: Seq<char>) -> Seq<char> {
    match source {
        RateLimitKeySource::IP(None) => client_ip,
        RateLimitKeySource::IP(Some(h)) => match header_value(headers, h@) {
            Some(v) => v,
            None => client_ip,
        },
        RateLimitKeySource::RequestHeader(h) => match header_value(headers, h@) {
            Some(v) => v,
            None => seq!['-'],
        },
    }
}

/// The key a request is limited under.
pub fn rate_limit_key(source: &RateLimitKeySource, headers: &Vec<(String, String)>, client_ip: &str) -> (r: String)
    ensures
        r@ == key_of(*source, crate::headers::headers_view(headers@), client_ip@),
{
    match source {
        RateLimitKeySource::IP(None) => String::from_str(client_ip),
        RateLimitKeySource::IP(Some(h)) => match crate::headers::find_header(headers, h.as_str()) {
            Some(v) => v,
            None => String::from_str(client_ip),
        },
        RateLimitKeySource::RequestHeader(h) => match crate::headers::find_header(headers, h.as_str()) {
            Some(v) => v,
            None => {
                proof {
                    reveal_strlit("-");
                }
                String::from_str("-")
            },
        },
    }
}

} // verus!
