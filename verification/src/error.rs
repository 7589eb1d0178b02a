//! Error taxonomy for credential acquisition and artist fetching.

use vstd::prelude::*;

verus! {

/// A required configuration value that may be absent.
#[derive(Clone, Copy, Debug, PartialEq, Eq, Structural)]
pub enum ConfigField {
    ClientId,
    ClientSecret,
    RedirectUri,
}

/// Failure of credential acquisition.
#[derive(Clone, Copy, Debug, PartialEq, Eq, Structural)]
pub enum AuthError {
    /// A required configuration field was not supplied.
    MissingConfig(ConfigField),
    /// The credential cache could not be read or written, or held bytes that
    /// are not a credential record.
    IoError,
    /// The authorization-code exchange did not yield a credential.
    AuthExchangeFailed,
}

/// Failure of a single source's artist listing.
#[derive(Clone, Copy, Debug, PartialEq, Eq, Structural)]
pub enum FetchError {
    /// One paginated request of the remote collection failed; the whole
    /// listing is aborted.
    PageRequestFailed,
    /// The source variant has no working listing implementation.
    UnsupportedSource,
}

} // verus!
