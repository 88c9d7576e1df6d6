//! A reverse-proxy gateway core: routing, load balancing, rate limiting,
//! middleware chains and configuration checks, with their contracts.
pub mod config;
pub mod error;
pub mod gateway_runtime;
pub mod headers;
pub mod load_balancer;
pub mod middleware;
pub mod proxy;
pub mod rate_limiter;
pub mod router;
pub mod service;
pub mod text;
pub mod tls;
pub mod validation;
