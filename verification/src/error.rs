//! Errors raised while a load profile or a request template is put together,
//! before any request is issued.

use vstd::prelude::*;

verus! {

/// Why a configuration was turned down.
#[derive(Clone, Copy, Debug, PartialEq, Eq, Structural)]
pub enum ConfigError {
    /// A count was not written as a decimal number that fits 32 bits.
    InvalidNumber,
    /// The concurrency level was zero.
    ZeroConcurrency,
    /// Fewer requests were asked for than may run at once.
    ConcurrencyExceedsTotal,
    /// The target was not accepted as a URI.
    MalformedUri,
    /// The target was a URI, but not one in absolute form.
    RelativeUri,
    /// The method was none of the six supported ones.
    UnsupportedMethod,
    /// The credentials were not of the form `username:password`.
    MalformedCredentials,
    /// The Accept value was not accepted as a media type with an optional quality.
    MalformedAccept,
    /// A header was not of the form `Name: value`, with a name before the colon.
    MalformedHeader,
}

} // verus!
