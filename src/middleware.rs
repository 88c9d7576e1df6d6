//! The per-route middleware chain and the built-in middlewares' request-side work.
use crate::config::MiddlewareConfig;
use crate::headers::{header_value, headers_view, names_equal, Header};
use vstd::prelude::*;
use vstd::string::StringExecFns;

verus! {

/// One link of a chain, in the order requests pass through.
#[derive(Clone, Debug)]
pub enum ChainLink {
    /// Writes a fresh `x-request-id` header.
    RequestId,
    /// Emits one access record per request.
    AccessLog,
    /// Prefixes the request path with this text.
    AddPrefix(String),
    /// Consults the rate limiter configured under this name.
    RateLimit(String),
}

/// A chain link as values.
pub enum LinkView {
    RequestId,
    AccessLog,
    AddPrefix(Seq<char>),
    RateLimit(Seq<char>),
}

/// The view of a chain link.
pub open spec fn link_view(l: ChainLink) -> LinkView {
    match l {
        ChainLink::RequestId => LinkView::RequestId,
        ChainLink::AccessLog => LinkView::AccessLog,
        ChainLink::AddPrefix(p) => LinkView::AddPrefix(p@),
        ChainLink::RateLimit(n) => LinkView::RateLimit(n@),
    }
}

/// The views of a chain.
pub open spec fn chain_view(c: Seq<ChainLink>) -> Seq<LinkView> {
    c.map_values(|l: ChainLink| link_view(l))
}

/// The configuration defined under `name`: the first entry with that name.
pub open spec fn lookup(defined: Seq<(String, MiddlewareConfig)>, name: Seq<char>) -> Option<MiddlewareConfig>
    decreases defined.len(),
{
    if defined.len() == 0 {
        None
    } else if defined[0].0@ == name {
        Some(defined[0].1)
    } else {
        lookup(defined.drop_first(), name)
    }
}

/// The link a configured middleware named `name` becomes.
pub open spec fn link_of(name: Seq<char>, m: MiddlewareConfig) -> LinkView {
    match m {
        MiddlewareConfig::AddPrefix(c) => LinkView::AddPrefix(c.prefix@),
        MiddlewareConfig::RateLimit(_) => LinkView::RateLimit(name),
    }
}

/// Every name is defined.
pub open spec fn all_defined(names: Seq<Seq<char>>, defined: Seq<(String, MiddlewareConfig)>) -> bool {
    forall|i: int| 0 <= i < names.len() ==> lookup(defined, #[trigger] names[i]) is Some
}

/// The chain of a route: request id, then access log, then the route's middlewares in
/// declaration order.
pub open spec fn chain_of(names: Seq<Seq<char>>, defined: Seq<(String, MiddlewareConfig)>) -> Seq<LinkView> {
    seq![LinkView::RequestId, LinkView::AccessLog] + Seq::new(
        names.len(),
        |i: int| link_of(names[i], lookup(defined, names[i])->Some_0),
    )
}

/// Builds the chains of routes.
pub struct MiddlewareRegistry;

impl MiddlewareRegistry {
    pub fn init() -> Self {
        MiddlewareRegistry
    }

    /// The chain of a route declaring the middlewares `names`; `None` when a name is not
    /// defined, which configuration validation rules out.
    pub fn create_chain(&self, names: &[String], defined: &Vec<(String, MiddlewareConfig)>) -> (r: Option<Vec<ChainLink>>)
        ensures
            r is Some <==> all_defined(crate::text::views_of(names@), defined@),
            r matches Some(c) ==> chain_view(c@) == chain_of(crate::text::views_of(names@), defined@),
    {
        let ghost ns = crate::text::views_of(names@);
        let mut chain: Vec<ChainLink> = vec![ChainLink::RequestId, ChainLink::AccessLog];
        assert(chain_view(chain@) =~= chain_of(ns.subrange(0, 0), defined@));
        for i in 0..names.len()
            invariant
                ns == crate::text::views_of(names@),
                chain_view(chain@) == chain_of(ns.subrange(0, i as int), defined@),
                all_defined(ns.subrange(0, i as int), defined@),
        {
            match find_middleware(defined, names[i].as_str()) {
                Some(m) => {
                    let link = match m {
                        MiddlewareConfig::AddPrefix(c) => ChainLink::AddPrefix(c.prefix.clone()),
                        MiddlewareConfig::RateLimit(_) => ChainLink::RateLimit(names[i].clone()),
                    };
                    assert(ns[i as int] == names@[i as int]@);
                    assert(link_view(link) == link_of(ns[i as int], *m));
                    let ghost before = chain_view(chain@);
                    chain.push(link);
                    assert(chain_view(chain@) =~= before.push(link_view(link)));
                    assert(chain_view(chain@) =~= chain_of(ns.subrange(0, i + 1), defined@));
                    assert(all_defined(ns.subrange(0, i + 1), defined@)) by {
                        assert forall|k: int| 0 <= k < i + 1 implies lookup(defined@, #[trigger] ns.subrange(0, i + 1)[k]) is Some by {
                            if k < i {
                                assert(ns.subrange(0, i + 1)[k] == ns.subrange(0, i as int)[k]);
                            }
                        }
                    }
                },
                None => {
                    assert(!all_defined(ns, defined@)) by {
                        assert(lookup(defined@, ns[i as int]) is None);
                    }
                    return None;
                },
            }
        }
        assert(ns.subrange(0, names@.len() as int) =~= ns);
        Some(chain)
    }
}

/// The configuration defined under `name`, if any.
pub fn find_middleware<'a>(defined: &'a Vec<(String, MiddlewareConfig)>, name: &str) -> (r: Option<&'a MiddlewareConfig>)
    ensures
        match r {
            Some(m) => lookup(defined@, name@) == Some(*m),
            None => lookup(defined@, name@) is None,
        },
{
    let ghost d = defined@;
    assert(d.subrange(0, d.len() as int) =~= d);
    for i in 0..defined.len()
        invariant
            d == defined@,
            lookup(d, name@) == lookup(d.subrange(i as int, d.len() as int), name@),
    {
        let ghost rest = d.subrange(i as int, d.len() as int);
        assert(rest.drop_first() =~= d.subrange(i + 1, d.len() as int));
        assert(rest[0] == d[i as int]);
        if crate::text::chars_equal(&crate::text::chars_of(defined[i].0.as_str()), &crate::text::chars_of(name)) {
            return Some(&defined[i].1);
        }
    }
    None
}

/// The path-prefixing middleware.
pub struct AddPrefix {
    prefix: String,
}

/// The path and query after prefixing: `prefix + path`, then `?query` when there is one.
pub open spec fn prefixed(prefix: Seq<char>, path: Seq<char>, query: Option<Seq<char>>) -> Seq<char> {
    match query {
        Some(q) => prefix + path + seq!['?'] + q,
        None => prefix + path,
    }
}

impl AddPrefix {
    /// The prefix this middleware adds.
    pub closed spec fn prefix_spec(&self) -> Seq<char> {
        self.prefix@
    }

    pub fn new(prefix: String) -> (r: Self)
        ensures
            r.prefix_spec() == prefix@,
    {
        AddPrefix { prefix }
    }

    /// The rewritten path and query of a request, the query kept as it was.
    pub fn rewrite(&self, path: &str, query: Option<&str>) -> (r: String)
        ensures
            r@ == prefixed(
                self.prefix_spec(),
                path@,
                match query {
                    Some(q) => Some(q@),
                    None => None,
                },
            ),
    {
        let base = self.prefix.clone().concat(path);
        match query {
            Some(q) => {
                proof {
                    reveal_strlit("?");
                }
                base.concat("?").concat(q)
            },
            None => base,
        }
    }
}

/// Makes path-prefixing middlewares from their configuration.
pub struct AddPrefixFactory;

impl AddPrefixFactory {
    /// The middleware for an add-prefix configuration; `None` for any other.
    pub fn create(&self, config: &MiddlewareConfig) -> (r: Option<AddPrefix>)
        ensures
            match *config {
                MiddlewareConfig::AddPrefix(c) => r matches Some(m) && m.prefix_spec() == c.prefix@,
                _ => r is None,
            },
    {
        match config {
            MiddlewareConfig::AddPrefix(c) => Some(AddPrefix::new(c.prefix.clone())),
            _ => None,
        }
    }
}

/// The level of an access record.
#[derive(Clone, Copy, Debug, PartialEq, Eq, Structural)]
pub enum AccessLevel {
    Info,
    Error,
}

/// INFO for 2xx and 3xx responses, ERROR otherwise.
pub fn access_level(status: u16) -> (r: AccessLevel)
    ensures
        r == if 200 <= status < 400 {
            AccessLevel::Info
        } else {
            AccessLevel::Error
        },
{
    if 200 <= status && status < 400 {
        AccessLevel::Info
    } else {
        AccessLevel::Error
    }
}

/// The access logger.
pub struct AccessLogger;

/// The fields of one access record.
pub struct AccessRecord {
    pub status: u16,
    pub method: String,
    pub path: String,
    pub duration_ms: u64,
    pub client_ip: String,
    pub user_agent: String,
    pub request_id: String,
    pub level: AccessLevel,
}

/// The name of the header carrying the request id.
pub open spec fn request_id_name() -> Seq<char> {
    seq!['x', '-', 'r', 'e', 'q', 'u', 'e', 's', 't', '-', 'i', 'd']
}

/// The name of the header carrying the user agent.
pub open spec fn user_agent_name() -> Seq<char> {
    seq!['u', 's', 'e', 'r', '-', 'a', 'g', 'e', 'n', 't']
}

/// A header's value, or `"-"` when absent.
pub open spec fn value_or_dash(hs: Seq<Header>, name: Seq<char>) -> Seq<char> {
    match header_value(hs, name) {
        Some(v) => v,
        None => seq!['-'],
    }
}

/// The loopback address in text.
pub open spec fn loopback_text() -> Seq<char> {
    seq!['1', '2', '7', '.', '0', '.', '0', '.', '1']
}

impl AccessLogger {
    /// The record for a request that was answered with `status` after `duration_ms`: the
    /// client IP defaults to 127.0.0.1, user agent and request id to `"-"`.
    pub fn record(
        &self,
        status: u16,
        method: &str,
        path: &str,
        duration_ms: u64,
        client_ip: Option<&str>,
        request_headers: &Vec<(String, String)>,
    ) -> (r: AccessRecord)
        ensures
            r.status == status,
            r.method@ == method@,
            r.path@ == path@,
            r.duration_ms == duration_ms,
            r.client_ip@ == match client_ip {
                Some(ip) => ip@,
                None => loopback_text(),
            },
            r.user_agent@ == value_or_dash(headers_view(request_headers@), user_agent_name()),
            r.request_id@ == value_or_dash(headers_view(request_headers@), request_id_name()),
            r.level == if 200 <= status < 400 {
                AccessLevel::Info
            } else {
                AccessLevel::Error
            },
    {
        proof {
            reveal_strlit("127.0.0.1");
            reveal_strlit("user-agent");
            reveal_strlit("x-request-id");
            reveal_strlit("-");
        }
        assert("127.0.0.1"@ =~= loopback_text());
        assert("user-agent"@ =~= user_agent_name());
        assert("x-request-id"@ =~= request_id_name());
        assert("-"@ =~= seq!['-']);
        let ip = match client_ip {
            Some(ip) => String::from_str(ip),
            None => String::from_str("127.0.0.1"),
        };
        let user_agent = match crate::headers::find_header(request_headers, "user-agent") {
            Some(v) => v,
            None => String::from_str("-"),
        };
        let request_id = match crate::headers::find_header(request_headers, "x-request-id") {
            Some(v) => v,
            None => String::from_str("-"),
        };
        AccessRecord {
            status,
            method: String::from_str(method),
            path: String::from_str(path),
            duration_ms,
            client_ip: ip,
            user_agent,
            request_id,
            level: access_level(status),
        }
    }
}

/// The request-id middleware.
pub struct RequestID;

/// The headers with every one named `name` removed and `(name, value)` appended.
pub open spec fn with_header(hs: Seq<Header>, name: Seq<char>, value: Seq<char>) -> Seq<Header> {
    hs.filter(|h: Header| !names_equal(h.0, name)).push((name, value))
}

/// Replaces every header named `name` by one `(name, value)` at the end.
pub fn set_header(headers: &mut Vec<(String, String)>, name: &str, value: String)
    ensures
        headers_view(final(headers)@) == with_header(headers_view(old(headers)@), name@, value@),
{
    let ghost hs = headers_view(old(headers)@);
    let mut kept: Vec<(String, String)> = Vec::new();
    for i in 0..headers.len()
        invariant
            hs == headers_view(headers@),
            headers_view(kept@) == hs.subrange(0, i as int).filter(|h: Header| !names_equal(h.0, name@)),
    {
        reveal(Seq::filter);
        assert(hs.subrange(0, i + 1).drop_last() =~= hs.subrange(0, i as int));
        assert(hs.subrange(0, i + 1).last() == (headers@[i as int].0@, headers@[i as int].1@));
        if !crate::headers::names_equal_exec(headers[i].0.as_str(), name) {
            kept.push((headers[i].0.clone(), headers[i].1.clone()));
        }
        assert(headers_view(kept@) =~= hs.subrange(0, i + 1).filter(|h: Header| !names_equal(h.0, name@)));
    }
    assert(hs.subrange(0, hs.len() as int) =~= hs);
    let ghost before = headers_view(kept@);
    kept.push((String::from_str(name), value));
    assert(headers_view(kept@) =~= before.push((name@, value@)));
    *headers = kept;
}

impl RequestID {
    /// Writes `id` as the request's `x-request-id` header, replacing any present.
    pub fn apply(&self, headers: &mut Vec<(String, String)>, id: String)
        ensures
            headers_view(final(headers)@) == with_header(headers_view(old(headers)@), request_id_name(), id@),
    {
        proof {
            reveal_strlit("x-request-id");
        }
        assert("x-request-id"@ =~= request_id_name());
        set_header(headers, "x-request-id", id);
    }

    /// Writes a fresh version-4 UUID as the request's `x-request-id` header, replacing any
    /// present; the other headers stay as they were, in order.
    pub fn call(&self, headers: &mut Vec<(String, String)>)
        ensures
            exists|id: Seq<char>|
                is_uuid_v4_text(id) && headers_view(final(headers)@) == #[trigger] with_header(
                    headers_view(old(headers)@),
                    request_id_name(),
                    id,
                ),
    {
        let id = fresh_request_id();
        let ghost v = id@;
        self.apply(headers, id);
        assert(headers_view(headers@) == with_header(headers_view(old(headers)@), request_id_name(), v));
    }
}

/// A lowercase hexadecimal digit.
pub open spec fn is_lower_hex(c: char) -> bool {
    ('0' <= c && c <= '9') || ('a' <= c && c <= 'f')
}

/// The text of a version-4 UUID in hyphenated lowercase form: 36 characters, hyphens at 8,
/// 13, 18 and 23, lowercase hex digits elsewhere, the version digit `4` at 14 and a variant
/// digit among `8`, `9`, `a`, `b` at 19.
pub open spec fn is_uuid_v4_text(s: Seq<char>) -> bool {
    &&& s.len() == 36
    &&& forall|i: int|
        0 <= i < 36 ==> if i == 8 || i == 13 || i == 18 || i == 23 {
            #[trigger] s[i] == '-'
        } else {
            is_lower_hex(s[i])
        }
    &&& s[14] == '4'
    &&& (s[19] == '8' || s[19] == '9' || s[19] == 'a' || s[19] == 'b')
}

/// Relies on `uuid::Uuid::new_v4`, which masks a random 128-bit value so that hex digit 12
/// is `4` and digit 16 is one of `8`..`b`, and on `Uuid::hyphenated`, whose text is the 32
/// lowercase hex digits with hyphens inserted after digits 8, 12, 16 and 20.
#[verifier::external_body]
fn fresh_request_id() -> (r: String)
    ensures
        is_uuid_v4_text(r@),
{
    uuid::Uuid::new_v4().hyphenated().to_string()
}

} // verus!
