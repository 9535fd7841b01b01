//! Error kinds of the aggregator core.

use vstd::prelude::*;

verus! {

/// Why a cached fetch failed.
#[derive(Clone, Copy, Debug, PartialEq, Eq, Structural)]
pub enum FetchError {
    /// The transport failed or the response had a non-success, non-throttled
    /// status.
    Transport,
    /// The server throttled the request and no cache entry, not even a stale
    /// one, was available for the URL.
    RateLimit,
    /// The response body was not well-formed JSON.
    Decode,
}

impl FetchError {
    /// A human-readable message for the error.
    pub fn message(&self) -> (r: &'static str)
        ensures
            r@ == self.spec_message(),
    {
        match self {
            FetchError::Transport => "request failed",
            FetchError::RateLimit => "Rate limit reached",
            FetchError::Decode => "failed to decode response body",
        }
    }

    /// The message each error carries.
    pub open spec fn spec_message(self) -> Seq<char> {
        match self {
            FetchError::Transport => "request failed"@,
            FetchError::RateLimit => "Rate limit reached"@,
            FetchError::Decode => "failed to decode response body"@,
        }
    }
}

/// Why building the symbol index failed.
#[derive(Clone, Copy, Debug, PartialEq, Eq, Structural)]
pub enum ResolveError {
    /// Fetching the bulk listing failed.
    Fetch(FetchError),
    /// The listing response was not a JSON array.
    NotAnArray,
}

impl ResolveError {
    /// A human-readable message for the error.
    pub fn message(&self) -> (r: &'static str)
        ensures
            r@ == self.spec_message(),
    {
        match self {
            ResolveError::Fetch(e) => e.message(),
            ResolveError::NotAnArray => "Expected array of coins",
        }
    }

    /// The message each error carries.
    pub open spec fn spec_message(self) -> Seq<char> {
        match self {
            ResolveError::Fetch(e) => e.spec_message(),
            ResolveError::NotAnArray => "Expected array of coins"@,
        }
    }
}

/// Why pricing a symbol failed outright (per-asset failures are skipped, not
/// raised).
#[derive(Clone, Copy, Debug, PartialEq, Eq, Structural)]
pub enum PriceError {
    /// The symbol index could not be built.
    Resolve(ResolveError),
    /// The requested symbol is absent from the index.
    UnsupportedSymbol,
}

impl PriceError {
    /// A human-readable message for the error.
    pub fn message(&self) -> (r: &'static str)
        ensures
            r@ == self.spec_message(),
    {
        match self {
            PriceError::Resolve(e) => e.message(),
            PriceError::UnsupportedSymbol => "Unsupported coin symbol",
        }
    }

    /// The message each error carries.
    pub open spec fn spec_message(self) -> Seq<char> {
        match self {
            PriceError::Resolve(e) => e.spec_message(),
            PriceError::UnsupportedSymbol => "Unsupported coin symbol"@,
        }
    }
}

} // verus!
