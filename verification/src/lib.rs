//! A reverse proxy's decision logic: routing, load balancing, rate limiting,
//! circuit breaking, caching, retries, header rules and request validation.
pub mod text;
pub mod time;
pub mod retry;
pub mod circuit_breaker;
pub mod counts;
pub mod load_balancer;
pub mod rate_limiter;
pub mod headers;
pub mod security_headers;
pub mod transform;
pub mod validate;
pub mod bot_detector;
pub mod auth;
pub mod error;
pub mod config;
pub mod cache;
pub mod proxy;
pub mod pipeline;

pub use time::Duration;
