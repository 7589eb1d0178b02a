//! Credential acquisition: configuration validation, the cached-credential
//! fast path, and the two phases of the interactive authorization flow.
//!
//! Everything here is a decision from plain values to plain values. The
//! embedding program performs the surrounding I/O: it reads the
//! configuration from the environment, reads and writes the cache file,
//! displays the authorization URL, reads the operator's code, and exchanges
//! it at the token endpoint.

use vstd::prelude::*;

use crate::credential::encodable;
use crate::credential::spec_encoded;
use crate::credential::Credential;
use crate::credential::CredentialData;
use crate::error::AuthError;
use crate::error::ConfigField;

verus! {

/// The scope string the application requests: profile, library, playback
/// and playlist permissions.
pub const SPOTIFY_SCOPES: &'static str = "user-read-email user-read-private user-top-read user-read-recently-played user-follow-read user-library-read user-read-currently-playing user-read-playback-state user-read-playback-position playlist-read-collaborative playlist-read-private user-follow-modify user-library-modify user-modify-playback-state playlist-modify-public playlist-modify-private ugc-image-upload";

/// The client configuration as the environment supplies it: each required
/// field possibly absent, plus the fixed scope string.
pub struct ConfigParts {
    pub client_id: Option<String>,
    pub client_secret: Option<String>,
    pub redirect_uri: Option<String>,
    pub scope: String,
}

impl ConfigParts {
    /// The first required field that is absent, if any, in the fixed order:
    /// client id, client secret, redirect URI.
    pub open spec fn spec_missing(&self) -> Option<ConfigField> {
        if self.client_id is None {
            Some(ConfigField::ClientId)
        } else if self.client_secret is None {
            Some(ConfigField::ClientSecret)
        } else if self.redirect_uri is None {
            Some(ConfigField::RedirectUri)
        } else {
            None
        }
    }
}

/// A validated client configuration: every required field present.
pub struct ClientConfig {
    pub client_id: String,
    pub client_secret: String,
    pub redirect_uri: String,
    pub scope: String,
}

/// `cfg` is exactly the validated form of `parts`.
pub open spec fn spec_config_of(parts: ConfigParts, cfg: ClientConfig) -> bool {
    &&& parts.spec_missing() is None
    &&& cfg.client_id == parts.client_id->0
    &&& cfg.client_secret == parts.client_secret->0
    &&& cfg.redirect_uri == parts.redirect_uri->0
    &&& cfg.scope == parts.scope
}

impl ClientConfig {
    /// Validates the supplied configuration: fails with `MissingConfig`
    /// exactly when a required field is absent, else carries every field
    /// over unchanged.
    pub fn from_parts(parts: ConfigParts) -> (r: Result<ClientConfig, AuthError>)
        ensures
            match parts.spec_missing() {
                Some(f) => r == Err::<ClientConfig, AuthError>(AuthError::MissingConfig(f)),
                None => r matches Ok(cfg) && spec_config_of(parts, cfg),
            },
    {
        let ConfigParts { client_id, client_secret, redirect_uri, scope } = parts;
        let client_id = match client_id {
            Some(v) => v,
            None => {
                return Err(AuthError::MissingConfig(ConfigField::ClientId));
            },
        };
        let client_secret = match client_secret {
            Some(v) => v,
            None => {
                return Err(AuthError::MissingConfig(ConfigField::ClientSecret));
            },
        };
        let redirect_uri = match redirect_uri {
            Some(v) => v,
            None => {
                return Err(AuthError::MissingConfig(ConfigField::RedirectUri));
            },
        };
        Ok(ClientConfig { client_id, client_secret, redirect_uri, scope })
    }
}

/// An authenticated session handle: the validated configuration bound to
/// the credential it was granted. Constructing one is what authentication
/// means; a remote source is built from a handle and from nothing else.
pub struct RemoteHandle {
    pub config: ClientConfig,
    pub credential: Credential,
}

/// What reading the credential cache file yielded. The embedding program
/// reads the file and reports it here.
pub enum CacheRead {
    /// The file exists and holds these bytes.
    Found(Vec<u8>),
    /// The file does not exist.
    Absent,
    /// The file exists but could not be read.
    Unreadable,
}

/// What authentication decided.
pub enum AuthStep {
    /// A cached credential was found and bound: the handle is ready.
    Ready(RemoteHandle),
    /// No cached credential: display this authorization URL, read the
    /// operator's code, exchange it at the token endpoint, and hand the
    /// outcome to [`complete_authorization`].
    Interactive(String),
    /// Authentication failed for good.
    Failed(AuthError),
}

/// Relies on rspotify's `AuthCodeSpotify::get_authorize_url` to build the
/// OAuth authorization URL for this configuration. The URL embeds a freshly
/// generated anti-forgery state, so nothing is stated of its text.
#[verifier::external_body]
fn authorize_url(config: &ClientConfig) -> (r: Option<String>) {
    let creds = rspotify::Credentials::new(&config.client_id, &config.client_secret);
    let mut oauth = rspotify::OAuth::default();
    oauth.redirect_uri = config.redirect_uri.clone();
    oauth.scopes = config.scope.split_whitespace().map(|s| s.to_string()).collect();
    let client = rspotify::AuthCodeSpotify::new(creds, oauth);
    client.get_authorize_url(false).ok()
}

/// Decides credential acquisition, performing no I/O itself. Validation
/// comes first: a missing field fails with `MissingConfig` whatever the
/// cache holds (and before anything could touch the network). With a valid
/// configuration, a cache record that holds a credential is bound and
/// reused as it stands — the interactive flow is never entered for it; an
/// unreadable or corrupt cache fails with `IoError`; only an absent cache
/// opens the interactive flow.
pub fn authenticate(parts: ConfigParts, cache: CacheRead) -> (r: AuthStep)
    ensures
        parts.spec_missing() matches Some(f) ==> r == AuthStep::Failed(AuthError::MissingConfig(f)),
        parts.spec_missing() is None ==> match cache {
            CacheRead::Unreadable => r == AuthStep::Failed(AuthError::IoError),
            CacheRead::Found(b) => {
                &&& (r is Ready <==> exists|c: CredentialData|
                    encodable(c) && b@ == #[trigger] spec_encoded(c))
                &&& (r matches AuthStep::Ready(h) ==> encodable(h.credential.deep_view())
                    && b@ == spec_encoded(h.credential.deep_view())
                    && spec_config_of(parts, h.config))
                &&& (!(r is Ready) ==> r == AuthStep::Failed(AuthError::IoError))
            },
            CacheRead::Absent => r is Interactive || r == AuthStep::Failed(
                AuthError::AuthExchangeFailed,
            ),
        },
{
    let config = match ClientConfig::from_parts(parts) {
        Ok(c) => c,
        Err(e) => {
            return AuthStep::Failed(e);
        },
    };
    match cache {
        CacheRead::Unreadable => AuthStep::Failed(AuthError::IoError),
        CacheRead::Found(b) => match Credential::decode(b.as_slice()) {
            Some(credential) => AuthStep::Ready(RemoteHandle { config, credential }),
            None => AuthStep::Failed(AuthError::IoError),
        },
        CacheRead::Absent => match authorize_url(&config) {
            Some(url) => AuthStep::Interactive(url),
            None => AuthStep::Failed(AuthError::AuthExchangeFailed),
        },
    }
}

/// Completes the interactive flow from whatever the code exchange yielded:
/// no credential is a terminal `AuthExchangeFailed`; a credential is bound
/// to the configuration, and the cache record to persist is handed back
/// beside the ready handle.
pub fn complete_authorization(config: ClientConfig, exchanged: Option<Credential>) -> (r: Result<
    (RemoteHandle, Vec<u8>),
    AuthError,
>)
    ensures
        match exchanged {
            None => r is Err && r->Err_0 == AuthError::AuthExchangeFailed,
            Some(c) => r matches Ok(out) && out.0.config == config && out.0.credential == c
                && out.1@ == spec_encoded(c.deep_view()),
        },
{
    match exchanged {
        None => Err(AuthError::AuthExchangeFailed),
        Some(credential) => {
            let record = credential.encode();
            Ok((RemoteHandle { config, credential }, record))
        },
    }
}

} // verus!
