//! The configuration of an endpoint.

use crate::clock;
use crate::protocol::Protocol;
use std::time::Duration;
use vstd::prelude::*;

verus! {

/// `tracing::Level`, a level of logging.
#[verifier::external_type_specification]
#[verifier::external_body]
pub struct ExLevel(tracing::Level);

/// Where an endpoint listens or connects to, and its limits.
#[derive(Debug)]
pub struct EndpointConfig {
    /// What the endpoint is known by.
    pub id: String,
    /// The address, such as `0.0.0.0` or `127.0.0.1`.
    pub host: String,
    pub port: u16,
    /// How many connections there may be at a time; 0 for any number.
    pub max_channels: u16,
    /// After how many seconds without traffic a connection counts as idle.
    pub idle_time_sec: u16,
    /// How many seconds a client waits before it connects again.
    pub reconnect_interval_sec: u16,
    /// How many requests may wait for a response on one connection.
    pub window_size: u16,
    pub protocol: Protocol,
    /// How long a request waits for its response.
    pub timeout: Duration,
    /// The level of logging, if it is not the global one.
    pub log_level: Option<tracing::Level>,
}

impl Clone for EndpointConfig {
    fn clone(&self) -> (config: Self)
        ensures
            config == (EndpointConfig { id: config.id, host: config.host, ..*self }),
            config.id@ == self.id@,
            config.host@ == self.host@,
    {
        EndpointConfig {
            id: self.id.clone(),
            host: self.host.clone(),
            port: self.port,
            max_channels: self.max_channels,
            idle_time_sec: self.idle_time_sec,
            reconnect_interval_sec: self.reconnect_interval_sec,
            window_size: self.window_size,
            protocol: self.protocol,
            timeout: self.timeout,
            log_level: self.log_level,
        }
    }
}

impl EndpointConfig {
    /// An endpoint for CMPP with a window of 16, a timeout of five seconds and five seconds
    /// between two attempts to connect.
    pub fn new(
        id: &str,
        host: &str,
        port: u16,
        max_channels: u16,
        idle_time_sec: u16,
    ) -> (config: Self)
        ensures
            config.id@ == id@,
            config.host@ == host@,
            config.port == port,
            config.max_channels == max_channels,
            config.idle_time_sec == idle_time_sec,
            config.reconnect_interval_sec == 5,
            config.window_size == 16,
            config.protocol == Protocol::Cmpp,
            clock::duration_nanos(config.timeout) == 5_000_000_000,
            config.log_level is None,
    {
        EndpointConfig {
            id: id.to_owned(),
            host: host.to_owned(),
            port,
            max_channels,
            idle_time_sec,
            reconnect_interval_sec: 5,
            window_size: 16,
            protocol: Protocol::Cmpp,
            timeout: clock::from_secs(5),
            log_level: None,
        }
    }

    pub fn with_window_size(self, window_size: u16) -> (config: Self)
        ensures
            config == (EndpointConfig { window_size, ..self }),
    {
        EndpointConfig { window_size, ..self }
    }

    pub fn with_protocol(self, protocol: Protocol) -> (config: Self)
        ensures
            config == (EndpointConfig { protocol, ..self }),
    {
        EndpointConfig { protocol, ..self }
    }

    pub fn with_timeout(self, timeout: Duration) -> (config: Self)
        ensures
            config == (EndpointConfig { timeout, ..self }),
    {
        EndpointConfig { timeout, ..self }
    }

    pub fn with_reconnect_interval(self, interval: u16) -> (config: Self)
        ensures
            config == (EndpointConfig { reconnect_interval_sec: interval, ..self }),
    {
        EndpointConfig { reconnect_interval_sec: interval, ..self }
    }

    pub fn with_log_level(self, level: tracing::Level) -> (config: Self)
        ensures
            config == (EndpointConfig { log_level: Some(level), ..self }),
    {
        EndpointConfig { log_level: Some(level), ..self }
    }
}

/// What an endpoint is unless it is told otherwise, and what each setting changes.
pub proof fn law_settings(
    id: &str,
    host: &str,
    port: u16,
    max_channels: u16,
    idle_time_sec: u16,
    config: EndpointConfig,
    window_size: u16,
    a: EndpointConfig,
    protocol: Protocol,
    b: EndpointConfig,
    interval: u16,
    c: EndpointConfig,
    timeout: Duration,
    d: EndpointConfig,
)
    requires
        call_ensures(EndpointConfig::new, (id, host, port, max_channels, idle_time_sec), config),
        call_ensures(EndpointConfig::with_window_size, (config, window_size), a),
        call_ensures(EndpointConfig::with_protocol, (a, protocol), b),
        call_ensures(EndpointConfig::with_reconnect_interval, (b, interval), c),
        call_ensures(EndpointConfig::with_timeout, (c, timeout), d),
    ensures
        config.window_size == 16,
        config.protocol == Protocol::Cmpp,
        config.reconnect_interval_sec == 5,
        clock::duration_nanos(config.timeout) == 5_000_000_000,
        d.id@ == id@,
        d.host@ == host@,
        d.port == port,
        d.max_channels == max_channels,
        d.idle_time_sec == idle_time_sec,
        d.window_size == window_size,
        d.protocol == protocol,
        d.reconnect_interval_sec == interval,
        d.timeout == timeout,
{
}

} // verus!
