//! Configuration and statistics types for the HTTP agent.
//!
//! The agent itself wraps an external HTTP engine and lives outside this
//! library; these are the plain values it is configured with.

use vstd::prelude::*;

verus! {

/// A default header the agent attaches to every request.
#[derive(Debug, Clone)]
pub struct Header {
    pub name: String,
    pub value: String,
    pub sensitive: Option<bool>,
}

/// The congestion-control algorithm used for HTTP/3 connections.
#[derive(Debug, Clone, Copy, PartialEq, Eq, Structural)]
pub enum Http3Congestion {
    Cubic,
    Bbr1,
}

impl Default for Http3Congestion {
    fn default() -> (r: Self)
        ensures
            r == Http3Congestion::Cubic,
    {
        Http3Congestion::Cubic
    }
}

/// Options for the agent's HTTP/3 transport.
#[derive(Debug, Clone)]
pub struct AgentHttp3Options {
    pub congestion: Option<Http3Congestion>,
    pub max_idle_timeout: Option<u8>,
}

impl Default for AgentHttp3Options {
    fn default() -> (r: Self)
        ensures
            r.congestion is None,
            r.max_idle_timeout is None,
    {
        AgentHttp3Options { congestion: None, max_idle_timeout: None }
    }
}

/// Options for the agent's connection pool.
#[derive(Debug, Clone)]
pub struct AgentPoolOptions {
    pub idle_timeout: Option<u32>,
    pub max_idle_per_host: Option<u32>,
}

impl Default for AgentPoolOptions {
    fn default() -> (r: Self)
        ensures
            r.idle_timeout is None,
            r.max_idle_per_host is None,
    {
        AgentPoolOptions { idle_timeout: None, max_idle_per_host: None }
    }
}

/// How the agent treats redirect responses.
#[derive(Debug, Clone, Copy, PartialEq, Eq, Structural)]
pub enum Redirect {
    Follow,
    Error,
    Manual,
    Stop,
}

impl Default for Redirect {
    fn default() -> (r: Self)
        ensures
            r == Redirect::Follow,
    {
        Redirect::Follow
    }
}

/// The agent's timeouts, each in milliseconds.
#[derive(Debug, Clone, Copy)]
pub struct AgentTimeoutOptions {
    pub connect: Option<u32>,
    pub read: Option<u32>,
    pub total: Option<u32>,
}

impl Default for AgentTimeoutOptions {
    fn default() -> (r: Self)
        ensures
            r.connect is None,
            r.read is None,
            r.total is None,
    {
        AgentTimeoutOptions { connect: None, read: None, total: None }
    }
}

/// Counters over the lifetime of one agent.
#[derive(Debug, Clone)]
pub struct AgentStats {
    pub requests_sent: i64,
    pub responses_received: i64,
}

impl Default for AgentStats {
    fn default() -> (r: Self)
        ensures
            r.requests_sent == 0,
            r.responses_received == 0,
    {
        AgentStats { requests_sent: 0, responses_received: 0 }
    }
}

} // verus!
