//! The endpoints that the gateway serves.

use std::time::Duration;
use vstd::prelude::*;

verus! {

/// The protocol that an endpoint speaks.
#[derive(Debug, Clone, Copy, PartialEq, Eq)]
pub enum EndpointMode {
    TcpLookup,
    SocketmapLookup,
    Policy,
}

/// One listener and the backend that it forwards to.
#[derive(Debug, Clone)]
pub struct Endpoint {
    pub name: String,
    pub mode: EndpointMode,
    pub target: String,
    pub bind_address: String,
    pub bind_port: u16,
    pub auth_token: String,
    /// In milliseconds.
    pub request_timeout: u64,
}

/// How the HTTP client of an endpoint is set up.
pub struct ClientSettings {
    /// In milliseconds.
    pub timeout: u64,
    pub pool_max_idle_per_host: usize,
    /// In seconds.
    pub pool_idle_timeout: u64,
    /// In seconds.
    pub tcp_keepalive: u64,
}

/// The time span of this many milliseconds.
pub uninterp spec fn duration_of_millis(millis: u64) -> Duration;

/// `Duration::from_millis` makes the time span of that many milliseconds;
/// the contract gives it a name.
pub assume_specification[ Duration::from_millis ](millis: u64) -> (d: Duration)
    ensures
        d == duration_of_millis(millis),
;

impl Endpoint {
    /// The longest that one call to the backend may take.
    pub fn timeout(&self) -> (d: Duration)
        ensures
            d == duration_of_millis(self.request_timeout),
    {
        Duration::from_millis(self.request_timeout)
    }

    /// The settings of the HTTP client: the endpoint's own timeout, and
    /// the same connection pool for every endpoint.
    pub fn client_settings(&self) -> (s: ClientSettings)
        ensures
            s.timeout == self.request_timeout,
            s.pool_max_idle_per_host == 50,
            s.pool_idle_timeout == 90,
            s.tcp_keepalive == 60,
    {
        ClientSettings {
            timeout: self.request_timeout,
            pool_max_idle_per_host: 50,
            pool_idle_timeout: 90,
            tcp_keepalive: 60,
        }
    }
}

/// The gateway's configuration.
#[derive(Debug, Clone)]
pub struct Config {
    pub user_agent: String,
    pub endpoints: Vec<Endpoint>,
}

/// Why a configuration is refused.
#[derive(Debug, Clone, Copy, PartialEq, Eq)]
pub enum ConfigError {
    /// It names no endpoint.
    NoEndpoints,
}

impl Config {
    /// A configuration is valid where it has at least one endpoint.
    pub open spec fn valid(&self) -> bool {
        self.endpoints@.len() > 0
    }

    /// Accepts a configuration that has at least one endpoint.
    pub fn checked(user_agent: String, endpoints: Vec<Endpoint>) -> (r: Result<Config, ConfigError>)
        ensures
            match r {
                Ok(config) => endpoints@.len() > 0 && config.user_agent == user_agent
                    && config.endpoints == endpoints && config.valid(),
                Err(e) => endpoints@.len() == 0 && e == ConfigError::NoEndpoints,
            },
    {
        if endpoints.len() == 0 {
            Err(ConfigError::NoEndpoints)
        } else {
            Ok(Config { user_agent, endpoints })
        }
    }
}

} // verus!
