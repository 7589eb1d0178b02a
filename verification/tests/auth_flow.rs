use music_box::authenticate;
use music_box::complete_authorization;
use music_box::AuthError;
use music_box::AuthStep;
use music_box::CacheRead;
use music_box::ClientConfig;
use music_box::ConfigField;
use music_box::ConfigParts;
use music_box::Credential;

fn full_parts() -> ConfigParts {
    ConfigParts {
        client_id: Some("client-id".to_string()),
        client_secret: Some("client-secret".to_string()),
        redirect_uri: Some("http://localhost:8000".to_string()),
        scope: music_box::auth::SPOTIFY_SCOPES.to_string(),
    }
}

fn sample_credential() -> Credential {
    Credential {
        access_token: "access-tökén".to_string(),
        refresh_token: Some("refresh".to_string()),
        expires_at: Some(1_700_000_000),
        scope: "user-follow-read user-library-read".to_string(),
    }
}

#[test]
fn credential_round_trips_through_the_cache_record() {
    let c = sample_credential();
    let record = c.encode();
    let back = Credential::decode(&record).expect("a record must decode");
    assert_eq!(back.access_token, c.access_token);
    assert_eq!(back.refresh_token, c.refresh_token);
    assert_eq!(back.expires_at, c.expires_at);
    assert_eq!(back.scope, c.scope);
}

#[test]
fn credential_without_optional_fields_round_trips() {
    let c = Credential {
        access_token: String::new(),
        refresh_token: None,
        expires_at: None,
        scope: String::new(),
    };
    let record = c.encode();
    let back = Credential::decode(&record).expect("a record must decode");
    assert_eq!(back.access_token, "");
    assert_eq!(back.refresh_token, None);
    assert_eq!(back.expires_at, None);
    assert_eq!(back.scope, "");
}

#[test]
fn corrupt_records_are_rejected() {
    assert!(Credential::decode(&[]).is_none());
    assert!(Credential::decode(&[1, 2, 3]).is_none());
    let mut record = sample_credential().encode();
    record.push(0);
    assert!(Credential::decode(&record).is_none(), "trailing bytes must be rejected");
    let record = sample_credential().encode();
    assert!(Credential::decode(&record[..record.len() - 1]).is_none());
}

#[test]
fn cached_credential_is_reused_without_the_interactive_flow() {
    let c = sample_credential();
    let record = c.encode();
    match authenticate(full_parts(), CacheRead::Found(record)) {
        AuthStep::Ready(handle) => {
            assert_eq!(handle.credential.access_token, c.access_token);
            assert_eq!(handle.credential.refresh_token, c.refresh_token);
            assert_eq!(handle.credential.expires_at, c.expires_at);
            assert_eq!(handle.credential.scope, c.scope);
            assert_eq!(handle.config.client_id, "client-id");
        },
        AuthStep::Interactive(_) => panic!("a cached credential must not prompt the operator"),
        AuthStep::Failed(_) => panic!("a cached credential must authenticate"),
    }
}

#[test]
fn corrupt_cache_fails_with_io_error() {
    match authenticate(full_parts(), CacheRead::Found(vec![9, 9, 9])) {
        AuthStep::Failed(AuthError::IoError) => {},
        _ => panic!("a corrupt cache record must fail with IoError"),
    }
}

#[test]
fn unreadable_cache_fails_with_io_error() {
    match authenticate(full_parts(), CacheRead::Unreadable) {
        AuthStep::Failed(AuthError::IoError) => {},
        _ => panic!("an unreadable cache must fail with IoError"),
    }
}

#[test]
fn absent_cache_opens_the_interactive_flow() {
    match authenticate(full_parts(), CacheRead::Absent) {
        AuthStep::Interactive(url) => assert!(!url.is_empty()),
        AuthStep::Ready(_) => panic!("nothing is cached, so nothing can be ready"),
        AuthStep::Failed(_) => panic!("building the authorization URL must succeed here"),
    }
}

#[test]
fn missing_client_secret_fails_before_anything_else() {
    let parts = ConfigParts {
        client_id: Some("client-id".to_string()),
        client_secret: None,
        redirect_uri: Some("http://localhost:8000".to_string()),
        scope: music_box::auth::SPOTIFY_SCOPES.to_string(),
    };
    match authenticate(parts, CacheRead::Absent) {
        AuthStep::Failed(AuthError::MissingConfig(ConfigField::ClientSecret)) => {},
        _ => panic!("a missing client secret must fail with MissingConfig"),
    }
}

#[test]
fn completing_without_a_credential_fails_the_exchange() {
    let config = ClientConfig::from_parts(full_parts()).unwrap();
    match complete_authorization(config, None) {
        Err(AuthError::AuthExchangeFailed) => {},
        _ => panic!("no credential means the exchange failed"),
    }
}

#[test]
fn completing_with_a_credential_yields_handle_and_cache_record() {
    let config = ClientConfig::from_parts(full_parts()).unwrap();
    let c = sample_credential();
    let expected = c.encode();
    let (handle, record) =
        complete_authorization(config, Some(c)).expect("a credential completes the flow");
    assert_eq!(record, expected);
    assert_eq!(handle.credential.access_token, "access-tökén");
    let reread = Credential::decode(&record).expect("the persisted record must decode");
    assert_eq!(reread.access_token, handle.credential.access_token);
}
