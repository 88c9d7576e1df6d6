//! The gateway configuration model and its validation.
use vstd::prelude::*;
use vstd::string::StringExecFns;

verus! {

/// An IP address as an integer: IPv4 in 32 bits, IPv6 in 128 bits.
#[derive(Clone, Copy, Debug, PartialEq, Eq, Structural)]
pub enum IpAddress {
    V4(u32),
    V6(u128),
}

/// A socket address: an IP address and a port.
#[derive(Clone, Copy, Debug, PartialEq, Eq, Structural)]
pub struct SocketAddress {
    pub ip: IpAddress,
    pub port: u16,
}

/// Where the admin interface listens.
#[derive(Clone, Copy, Debug, PartialEq, Eq, Structural)]
pub struct AdminAPIConfig {
    pub addr: SocketAddress,
}

/// The loopback address 127.0.0.1 as an integer.
pub const LOOPBACK_V4: u32 = 0x7f00_0001;

/// The admin interface's default port.
pub const DEFAULT_ADMIN_PORT: u16 = 5678;

impl Default for AdminAPIConfig {
    fn default() -> (r: Self)
        ensures
            r.addr == (SocketAddress { ip: IpAddress::V4(LOOPBACK_V4), port: DEFAULT_ADMIN_PORT }),
    {
        AdminAPIConfig { addr: SocketAddress { ip: IpAddress::V4(LOOPBACK_V4), port: DEFAULT_ADMIN_PORT } }
    }
}

/// A certificate and key pair, optionally bound to server names.
#[derive(Clone, Debug)]
pub struct TLSConfig {
    pub cert_file: String,
    pub key_file: String,
    pub default: bool,
    pub hostnames: Option<Vec<String>>,
}

/// What a listener speaks.
#[derive(Clone, Copy, Debug, PartialEq, Eq, Structural)]
pub enum Protocol {
    Http,
    Https,
    Tcp,
}

impl Default for Protocol {
    fn default() -> (r: Self)
        ensures
            r == Protocol::Http,
    {
        Protocol::Http
    }
}

/// A named bind target.
#[derive(Clone, Debug)]
pub struct Listener {
    pub name: String,
    pub addr: SocketAddress,
    pub protocol: Protocol,
}

/// How log records are written.
#[derive(Clone, Copy, Debug, PartialEq, Eq, Structural)]
pub enum LogFormat {
    Compact,
    Json,
}

impl Default for LogFormat {
    fn default() -> (r: Self)
        ensures
            r == LogFormat::Compact,
    {
        LogFormat::Compact
    }
}

/// A backend endpoint and its share of the traffic.
#[derive(Clone, Debug)]
pub struct Upstream {
    pub target: String,
    pub weight: u32,
}

/// The upstream pool of one service.
#[derive(Clone, Debug)]
pub struct HttpServiceConfig {
    pub upstreams: Vec<Upstream>,
}

/// A declarative route: predicates, target service and middleware names.
#[derive(Clone, Debug)]
pub struct RouteConfig {
    pub hosts: Option<Vec<String>>,
    pub path: Option<String>,
    pub listeners: Vec<String>,
    pub service: String,
    pub middlewares: Option<Vec<String>>,
    /// For a TCP route: what happens to TLS on the client connection.
    pub tls: Option<TcpTlsMode>,
}

/// What a TCP route does with TLS on the client connection.
#[derive(Clone, Copy, Debug, PartialEq, Eq, Structural)]
pub enum TcpTlsMode {
    /// Accept TLS at the gateway and splice the plaintext upstream.
    Terminate,
    /// Splice the bytes as they come.
    Passthrough,
}

/// Settings of the path-prefixing middleware.
#[derive(Clone, Debug)]
pub struct AddPrefixConfig {
    pub prefix: String,
}

/// Where a rate limiter takes its key from.
#[derive(Clone, Debug)]
pub enum RateLimitKeySource {
    /// The client IP, or the named header when given and present.
    IP(Option<String>),
    /// The named header, or `"-"` when absent.
    RequestHeader(String),
}

impl Default for RateLimitKeySource {
    fn default() -> (r: Self)
        ensures
            r is IP && r->IP_0 is None,
    {
        RateLimitKeySource::IP(None)
    }
}

/// Settings of the rate-limiting middleware: `limit` requests per `period_ms` milliseconds.
#[derive(Clone, Debug)]
pub struct RateLimitConfig {
    pub source: RateLimitKeySource,
    pub limit: u32,
    pub period_ms: u64,
}

/// A route-configured middleware.
#[derive(Clone, Debug)]
pub enum MiddlewareConfig {
    AddPrefix(AddPrefixConfig),
    RateLimit(RateLimitConfig),
}

/// The HTTP part of the configuration: named middlewares and services, ordered routes.
#[derive(Clone, Debug)]
pub struct HttpConfig {
    pub middlewares: Vec<(String, MiddlewareConfig)>,
    pub services: Vec<(String, HttpServiceConfig)>,
    pub routes: Vec<RouteConfig>,
}

/// The raw TCP part of the configuration: named services and ordered routes.
#[derive(Clone, Debug)]
pub struct TcpConfig {
    pub services: Vec<(String, HttpServiceConfig)>,
    pub routes: Vec<RouteConfig>,
}

/// The gateway's own log sink.
#[derive(Clone, Debug)]
pub struct GatewayLog {
    pub level: String,
    pub format: LogFormat,
    pub file_path: String,
}

/// The access log sink.
#[derive(Clone, Debug)]
pub struct AccessLog {
    pub enabled: bool,
    pub format: LogFormat,
    pub file_path: String,
}

/// The default log level.
pub fn default_log_level() -> (r: String)
    ensures
        r@ == seq!['I', 'N', 'F', 'O'],
{
    proof {
        reveal_strlit("INFO");
    }
    let r = String::from_str("INFO");
    assert(r@ =~= seq!['I', 'N', 'F', 'O']);
    r
}

/// Access logging is on by default.
pub fn default_access_log_enabled() -> (r: bool)
    ensures
        r,
{
    true
}

/// Logs go to standard output by default.
pub fn default_log_file_path() -> (r: String)
    ensures
        r@ == seq!['s', 't', 'd', 'o', 'u', 't'],
{
    proof {
        reveal_strlit("stdout");
    }
    let r = String::from_str("stdout");
    assert(r@ =~= seq!['s', 't', 'd', 'o', 'u', 't']);
    r
}

/// An upstream's default weight.
pub fn default_upstream_weight() -> (r: u32)
    ensures
        r == 1,
{
    1
}

/// The only configuration version there is.
pub fn default_config_version() -> (r: u8)
    ensures
        r == 1,
{
    1
}

impl Default for GatewayLog {
    fn default() -> (r: Self)
        ensures
            r.level@ == seq!['I', 'N', 'F', 'O'],
            r.format == LogFormat::Compact,
            r.file_path@ == seq!['s', 't', 'd', 'o', 'u', 't'],
    {
        GatewayLog { level: default_log_level(), format: LogFormat::Compact, file_path: default_log_file_path() }
    }
}

impl Default for AccessLog {
    fn default() -> (r: Self)
        ensures
            r.enabled,
            r.format == LogFormat::Compact,
            r.file_path@ == seq!['s', 't', 'd', 'o', 'u', 't'],
    {
        AccessLog {
            enabled: default_access_log_enabled(),
            format: LogFormat::Compact,
            file_path: default_log_file_path(),
        }
    }
}

/// The whole configuration, immutable once loaded.
#[derive(Clone, Debug)]
pub struct GatewayConfig {
    pub version: u8,
    pub admin_api: AdminAPIConfig,
    pub log: GatewayLog,
    pub access_log: AccessLog,
    pub tls: Option<Vec<TLSConfig>>,
    pub listeners: Vec<Listener>,
    pub http: HttpConfig,
    pub tcp: Option<TcpConfig>,
}

} // verus!
