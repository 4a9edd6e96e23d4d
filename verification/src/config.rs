//! The parts of the proxy's configuration that hold no floating-point
//! numbers, and the defaults that a configuration file may leave out.
use vstd::prelude::*;

verus! {

pub const DEFAULT_TIMEOUT_SECONDS: u64 = 30;
pub const DEFAULT_POOL_SIZE: usize = 10;
pub const DEFAULT_WORKER_THREADS: usize = 1;

/// The timeout of a request when neither the target nor the configuration
/// names one.
pub fn default_timeout_seconds() -> (r: u64)
    ensures
        r == DEFAULT_TIMEOUT_SECONDS,
{
    DEFAULT_TIMEOUT_SECONDS
}

/// The size of the connection pool when the configuration names none.
pub fn default_pool_size() -> (r: usize)
    ensures
        r == DEFAULT_POOL_SIZE,
{
    DEFAULT_POOL_SIZE
}

/// The number of runtime worker threads when the configuration names none.
pub fn default_worker_threads() -> (r: usize)
    ensures
        r == DEFAULT_WORKER_THREADS,
{
    DEFAULT_WORKER_THREADS
}

/// Where and how the proxy listens.
#[derive(Debug, Clone)]
pub struct ServerConfig {
    pub host: String,
    pub port: u16,
    pub max_logging_level: String,
    pub pool_size: usize,
    pub recv_buffer_size: Option<usize>,
    pub send_buffer_size: Option<usize>,
}

/// The asynchronous runtime's settings.
#[derive(Debug, Clone)]
pub struct RuntimeConfig {
    pub worker_threads: usize,
}

/// How requests to a target authenticate.
#[derive(Debug, Clone, Copy, PartialEq, Eq, Structural)]
pub enum AuthenticationType {
    JWT,
    Basic,
}

/// A target's authentication: its kind, the secret of JWT validation, and
/// the (name, password) pairs of Basic authentication.
#[derive(Debug, Clone)]
pub struct AuthenticationConfig {
    pub auth_type: AuthenticationType,
    pub jwt_secret: Option<String>,
    pub basic_users: Option<Vec<(String, String)>>,
}

/// Whether a target's requests and responses are logged.
#[derive(Debug, Clone, Copy, PartialEq, Eq, Structural)]
pub struct LoggingConfig {
    pub log_requests: bool,
    pub log_responses: bool,
}

} // verus!
