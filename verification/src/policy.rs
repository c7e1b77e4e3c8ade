//! Freshness policies and which upstream failures may be answered from a
//! stale entry.

use vstd::prelude::*;

verus! {

/// Where an entry's horizons came from. Stored with the entry.
#[derive(Clone, Copy, Debug, PartialEq, Eq, Structural)]
pub enum Source {
    /// A default the caller chose for this kind of request.
    CallerDefault,
    /// The upstream response's `Cache-Control` header.
    CacheControl,
}

/// How long a value is fresh, and how long it may then serve stale, both in
/// milliseconds.
#[derive(Clone, Copy, Debug, PartialEq, Eq, Structural)]
pub struct Policy {
    /// Served without asking upstream.
    pub fresh_ms: u64,
    /// After `fresh_ms`, served only when the upstream failure serves stale.
    pub stale_if_error_ms: u64,
    /// Where these two durations came from.
    pub source: Source,
}

impl Policy {
    /// A policy from the caller's own defaults.
    pub fn new(fresh_ms: u64, stale_if_error_ms: u64) -> (policy: Self)
        ensures
            policy == (Policy { fresh_ms, stale_if_error_ms, source: Source::CallerDefault }),
    {
        Policy { fresh_ms, stale_if_error_ms, source: Source::CallerDefault }
    }

    /// A policy read from the upstream `Cache-Control` header.
    pub fn from_cache_control(fresh_ms: u64, stale_if_error_ms: u64) -> (policy: Self)
        ensures
            policy == (Policy { fresh_ms, stale_if_error_ms, source: Source::CacheControl }),
    {
        Policy { fresh_ms, stale_if_error_ms, source: Source::CacheControl }
    }
}

/// Why an upstream request failed.
#[derive(Clone, Copy, Debug, PartialEq, Eq, Structural)]
pub enum Failure {
    /// The request ran out of time.
    Timeout,
    /// The connection could not be made or broke.
    Network,
    /// The upstream answered with this HTTP status.
    Status(u16),
    /// The response body was not valid JSON.
    InvalidJson,
    /// The response was JSON but did not match the expected schema.
    SchemaMismatch,
}

/// The transient failures: timeout, network, 429 and every 5xx status.
pub open spec fn transient(failure: Failure) -> bool {
    match failure {
        Failure::Timeout | Failure::Network => true,
        Failure::Status(code) => code == 429 || (500 <= code && code <= 599),
        Failure::InvalidJson | Failure::SchemaMismatch => false,
    }
}

impl Failure {
    /// Whether a stale entry may answer the request instead of this failure:
    /// only a transient failure may, since any other one may mean the stored
    /// value is wrong.
    pub fn serves_stale(self) -> (serves: bool)
        ensures
            serves == transient(self),
    {
        match self {
            Failure::Timeout | Failure::Network => true,
            Failure::Status(code) => code == 429 || (500 <= code && code <= 599),
            Failure::InvalidJson | Failure::SchemaMismatch => false,
        }
    }
}

} // verus!
