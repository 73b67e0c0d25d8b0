//! Per-request options.

use vstd::prelude::*;

verus! {

/// How a request interacts with the HTTP response cache.
#[derive(Debug, Clone, Copy, PartialEq, Eq, Structural)]
pub enum RequestCacheMode {
    Default,
    ForceCache,
    IgnoreRules,
    NoCache,
    NoStore,
    OnlyIfCached,
    Reload,
}

impl Default for RequestCacheMode {
    fn default() -> (r: Self)
        ensures
            r == RequestCacheMode::Default,
    {
        RequestCacheMode::Default
    }
}

/// Whether credentials (cookies, URL credentials) accompany a request.
#[derive(Debug, Clone, Copy, PartialEq, Eq, Structural)]
pub enum CredentialsOption {
    Omit,
    SameOrigin,
    Include,
}

impl Default for CredentialsOption {
    fn default() -> (r: Self)
        ensures
            r == CredentialsOption::Include,
    {
        CredentialsOption::Include
    }
}

impl CredentialsOption {
    /// The form a request is actually sent with: this client has no origin
    /// of its own, so `SameOrigin` is carried out as `Include`.
    pub fn effective(self) -> (r: Self)
        ensures
            r == (if self == CredentialsOption::SameOrigin {
                CredentialsOption::Include
            } else {
                self
            }),
            r != CredentialsOption::SameOrigin,
    {
        if self == CredentialsOption::SameOrigin {
            CredentialsOption::Include
        } else {
            self
        }
    }
}

/// The duplex mode of a streamed request body.
#[derive(Debug, Clone, Copy, PartialEq, Eq, Structural)]
pub enum DuplexOption {
    Half,
}

} // verus!
