use music_box::Artist;
use music_box::AuthError;
use music_box::ClientConfig;
use music_box::ConfigParts;
use music_box::Credential;
use music_box::FetchError;
use music_box::LocalDir;
use music_box::MusicLibrary;
use music_box::MusicSource;
use music_box::RemoteHandle;

fn test_config() -> ClientConfig {
    match ClientConfig::from_parts(ConfigParts {
        client_id: Some("id".to_string()),
        client_secret: Some("secret".to_string()),
        redirect_uri: Some("http://localhost:8000".to_string()),
        scope: music_box::auth::SPOTIFY_SCOPES.to_string(),
    }) {
        Ok(c) => c,
        Err(_) => panic!("config with all fields present must validate"),
    }
}

fn test_handle() -> RemoteHandle {
    RemoteHandle {
        config: test_config(),
        credential: Credential {
            access_token: "token".to_string(),
            refresh_token: None,
            expires_at: None,
            scope: "user-follow-read".to_string(),
        },
    }
}

fn artist(name: &str) -> Artist {
    Artist {
        name: name.to_string(),
        genres: vec![],
        url: None,
        spotify_id: None,
        image_urls: vec![],
    }
}

fn names(artists: &[Artist]) -> Vec<String> {
    artists.iter().map(|a| a.name.clone()).collect()
}

#[test]
fn local_dir_lists_nothing() {
    let dir = LocalDir::new("Test Dir", "music");
    assert_eq!(dir.name, "Test Dir");
    assert_eq!(dir.path, "music");
    let listed = dir.get_artists().expect("a local listing never fails");
    assert!(listed.is_empty());
}

#[test]
fn source_dispatch_remote_passes_outcome_through() {
    let remote = MusicSource::new_spotify_client(test_handle());
    let ok = remote.get_artists(Ok(vec![artist("A"), artist("B")]));
    assert_eq!(names(&ok.unwrap()), vec!["A", "B"]);
    let err = remote.get_artists(Err(FetchError::PageRequestFailed));
    assert!(matches!(err, Err(FetchError::PageRequestFailed)));
}

#[test]
fn source_dispatch_local_ignores_remote_outcome() {
    let local = MusicSource::new_local_dir_client("Test Dir", "music");
    let listed = local.get_artists(Err(FetchError::UnsupportedSource));
    assert!(listed.unwrap().is_empty());
}

#[test]
fn all_sources_succeed_concatenates_in_order() {
    let library = MusicLibrary::new(vec![
        MusicSource::new_spotify_client(test_handle()),
        MusicSource::new_local_dir_client("Test Dir", "music"),
        MusicSource::new_spotify_client(test_handle()),
    ]);
    let fetched = vec![
        Ok(vec![artist("A"), artist("B")]),
        Ok(vec![artist("ignored: local sources answer by themselves")]),
        Ok(vec![artist("C")]),
    ];
    let merged = library.get_artists(fetched).expect("aggregation never fails");
    assert_eq!(names(&merged), vec!["A", "B", "C"]);
}

#[test]
fn one_failing_source_is_swallowed() {
    let library = MusicLibrary::new(vec![
        MusicSource::new_spotify_client(test_handle()),
        MusicSource::new_spotify_client(test_handle()),
    ]);
    let fetched = vec![
        Err(FetchError::PageRequestFailed),
        Ok(vec![artist("C"), artist("D")]),
    ];
    let merged = library.get_artists(fetched).expect("aggregation never fails");
    assert_eq!(names(&merged), vec!["C", "D"]);
}

#[test]
fn every_source_failing_still_succeeds_with_nothing() {
    let library = MusicLibrary::new(vec![
        MusicSource::new_spotify_client(test_handle()),
        MusicSource::new_spotify_client(test_handle()),
    ]);
    let fetched = vec![
        Err(FetchError::PageRequestFailed),
        Err(FetchError::PageRequestFailed),
    ];
    let merged = library.get_artists(fetched).expect("aggregation never fails");
    assert!(merged.is_empty());
}

#[test]
fn status_report_names_the_degraded_source() {
    let library = MusicLibrary::new(vec![
        MusicSource::new_spotify_client(test_handle()),
        MusicSource::new_local_dir_client("Test Dir", "music"),
        MusicSource::new_spotify_client(test_handle()),
    ]);
    let fetched = vec![
        Err(FetchError::PageRequestFailed),
        Ok(vec![]),
        Ok(vec![artist("C")]),
    ];
    let (merged, statuses) = library.get_artists_with_status(fetched);
    assert_eq!(names(&merged), vec!["C"]);
    assert_eq!(
        statuses,
        vec![Some(FetchError::PageRequestFailed), None, None]
    );
}

#[test]
fn empty_library_lists_nothing() {
    let library = MusicLibrary::new(vec![]);
    let merged = library.get_artists(vec![]).expect("aggregation never fails");
    assert!(merged.is_empty());
}

#[test]
fn add_dir_registers_after_existing_sources() {
    let mut library = MusicLibrary::new(vec![MusicSource::new_spotify_client(test_handle())]);
    library.add_dir("Test Dir", "music");
    let sources = library.sources();
    assert_eq!(sources.len(), 2);
    assert!(matches!(sources[0], MusicSource::SpotifyClient(_)));
    match &sources[1] {
        MusicSource::LocalDirectory(d) => {
            assert_eq!(d.name, "Test Dir");
            assert_eq!(d.path, "music");
        },
        MusicSource::SpotifyClient(_) => panic!("the added source must be the directory"),
    }
}

#[test]
fn set_spotify_replaces_the_remote_source() {
    let mut library = MusicLibrary::new(vec![
        MusicSource::new_spotify_client(test_handle()),
        MusicSource::new_local_dir_client("One", "a"),
        MusicSource::new_local_dir_client("Two", "b"),
    ]);
    library.set_spotify(test_handle());
    let sources = library.sources();
    assert_eq!(sources.len(), 3);
    assert!(matches!(sources[0], MusicSource::SpotifyClient(_)));
    match (&sources[1], &sources[2]) {
        (MusicSource::LocalDirectory(a), MusicSource::LocalDirectory(b)) => {
            assert_eq!(a.name, "One");
            assert_eq!(b.name, "Two");
        },
        _ => panic!("local sources must keep their order"),
    }
}

#[test]
fn missing_config_fields_are_reported_in_order() {
    let parts = ConfigParts {
        client_id: None,
        client_secret: None,
        redirect_uri: None,
        scope: String::new(),
    };
    assert!(matches!(
        ClientConfig::from_parts(parts),
        Err(AuthError::MissingConfig(music_box::ConfigField::ClientId))
    ));
    let parts = ConfigParts {
        client_id: Some("id".to_string()),
        client_secret: Some("secret".to_string()),
        redirect_uri: None,
        scope: String::new(),
    };
    assert!(matches!(
        ClientConfig::from_parts(parts),
        Err(AuthError::MissingConfig(music_box::ConfigField::RedirectUri))
    ));
}
