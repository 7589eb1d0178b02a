//! A verified core for a music-library aggregator.
//!
//! The library collects artist metadata from heterogeneous sources (a remote
//! streaming API and local directories) into one queryable collection. It
//! verifies the protocol and failure-handling logic: cursor-based pagination
//! of the remote "followed artists" collection, normalization of raw remote
//! records, the credential cache codec and acquisition flow, and the
//! partial-failure aggregation policy. All I/O (environment, files, network,
//! the interactive authorization prompt) is left to the embedding program,
//! which drives the decision functions defined here.

pub mod artist;
pub mod auth;
pub mod credential;
pub mod error;
pub mod model;
pub mod pagination;

pub use artist::Artist;
pub use artist::ExternalUrl;
pub use artist::RawArtistRecord;
pub use artist::RawImage;
pub use auth::authenticate;
pub use auth::complete_authorization;
pub use auth::AuthStep;
pub use auth::CacheRead;
pub use auth::ClientConfig;
pub use auth::ConfigParts;
pub use auth::RemoteHandle;
pub use credential::Credential;
pub use error::AuthError;
pub use error::ConfigField;
pub use error::FetchError;
pub use model::LocalDir;
pub use model::MusicLibrary;
pub use model::MusicSource;
pub use pagination::all_followed_artists;
pub use pagination::ArtistPage;
pub use pagination::ArtistPagination;
pub use pagination::PageRequest;
pub use pagination::remote_artists;
pub use pagination::RemoteCollection;
