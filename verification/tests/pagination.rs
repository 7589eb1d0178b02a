use music_box::artist::normalize_records;
use music_box::Artist;
use music_box::ArtistPage;
use music_box::ArtistPagination;
use music_box::ExternalUrl;
use music_box::RawArtistRecord;
use music_box::RawImage;
use music_box::RemoteCollection;

fn record(i: usize) -> RawArtistRecord {
    RawArtistRecord {
        id: format!("id-{}", i),
        name: format!("Artist {}", i),
        genres: vec!["rock".to_string()],
        external_urls: vec![ExternalUrl {
            site: "spotify".to_string(),
            url: format!("https://open.example/artist/{}", i),
        }],
        images: vec![],
    }
}

fn collection(n: usize) -> RemoteCollection {
    RemoteCollection::new((0..n).map(record).collect())
        .expect("the generated identifiers are distinct")
}

#[test]
fn duplicate_identifiers_are_rejected() {
    assert!(RemoteCollection::new(vec![record(1), record(2), record(1)]).is_none());
}

#[test]
fn one_hundred_twenty_records_take_three_requests() {
    let c = collection(120);
    let (records, requests) = music_box::all_followed_artists(&c);
    assert_eq!(requests, 3);
    assert_eq!(records.len(), 120);
    for (i, r) in records.iter().enumerate() {
        assert_eq!(r.id, format!("id-{}", i));
    }
}

#[test]
fn third_page_of_one_hundred_twenty_has_twenty_items_and_no_cursor() {
    let c = collection(120);
    let mut pager = ArtistPagination::new();
    let mut sizes: Vec<usize> = Vec::new();
    while let Some(req) = pager.next_request() {
        assert_eq!(req.limit, 50);
        let page = c.page_after(&req);
        sizes.push(page.items.len());
        pager.accept_page(page);
    }
    assert_eq!(sizes, vec![50, 50, 20]);
    // the walk has terminated: no fourth request is issued
    assert!(pager.next_request().is_none());
    assert_eq!(pager.pages_fetched(), 3);
}

#[test]
fn empty_collection_takes_one_request() {
    let c = collection(0);
    let (records, requests) = music_box::all_followed_artists(&c);
    assert_eq!(requests, 1);
    assert!(records.is_empty());
}

#[test]
fn exact_page_boundary_takes_two_requests() {
    let c = collection(100);
    let (records, requests) = music_box::all_followed_artists(&c);
    assert_eq!(requests, 2);
    assert_eq!(records.len(), 100);
}

#[test]
fn refetching_an_unchanged_collection_is_identical() {
    let c = collection(73);
    let (first_records, _) = music_box::all_followed_artists(&c);
    let (second_records, _) = music_box::all_followed_artists(&c);
    let first = normalize_records(first_records);
    let second = normalize_records(second_records);
    assert_eq!(first.len(), second.len());
    for (a, b) in first.iter().zip(second.iter()) {
        assert_eq!(a.name, b.name);
        assert_eq!(a.genres, b.genres);
        assert_eq!(a.url, b.url);
        assert_eq!(a.spotify_id, b.spotify_id);
        assert_eq!(a.image_urls, b.image_urls);
    }
}

#[test]
fn remote_listing_normalizes_the_whole_collection() {
    let c = collection(3);
    let artists = music_box::remote_artists(&c);
    assert_eq!(artists.len(), 3);
    assert_eq!(artists[1].name, "Artist 1");
    assert_eq!(artists[1].spotify_id, Some("id-1".to_string()));
    assert_eq!(artists[1].url, Some("https://open.example/artist/1".to_string()));
}

#[test]
fn trailing_empty_page_ends_the_walk() {
    // a remote that answers a full page with a cursor and then an empty page
    let mut pager = ArtistPagination::new();
    pager.accept_page(ArtistPage {
        items: (0..50).map(record).collect(),
        next: Some("id-49".to_string()),
    });
    assert!(!pager.is_done());
    pager.accept_page(ArtistPage { items: vec![], next: None });
    assert!(pager.is_done());
    assert!(pager.next_request().is_none());
    assert_eq!(pager.pages_fetched(), 2);
    assert_eq!(pager.into_items().len(), 50);
}

#[test]
fn empty_page_with_a_cursor_still_ends_the_walk() {
    let mut pager = ArtistPagination::new();
    pager.accept_page(ArtistPage { items: vec![], next: Some("id-0".to_string()) });
    assert!(pager.is_done());
}

#[test]
fn normalization_takes_first_url_and_keeps_all_images() {
    let raw = RawArtistRecord {
        id: "id-7".to_string(),
        name: "Artist 7".to_string(),
        genres: vec!["ambient".to_string(), "drone".to_string()],
        external_urls: vec![
            ExternalUrl { site: "spotify".to_string(), url: "https://one.example".to_string() },
            ExternalUrl { site: "web".to_string(), url: "https://two.example".to_string() },
        ],
        images: vec![
            RawImage { url: "https://img.example/1".to_string(), width: Some(640), height: Some(640) },
            RawImage { url: "https://img.example/2".to_string(), width: Some(300), height: Some(300) },
            RawImage { url: "https://img.example/3".to_string(), width: None, height: None },
        ],
    };
    let a = Artist::from(raw);
    assert_eq!(a.name, "Artist 7");
    assert_eq!(a.genres, vec!["ambient".to_string(), "drone".to_string()]);
    assert_eq!(a.url, Some("https://one.example".to_string()));
    assert_eq!(a.spotify_id, Some("id-7".to_string()));
    assert_eq!(
        a.image_urls,
        vec![
            "https://img.example/1".to_string(),
            "https://img.example/2".to_string(),
            "https://img.example/3".to_string(),
        ]
    );
}

#[test]
fn normalization_without_urls_or_images() {
    let raw = RawArtistRecord {
        id: "id-8".to_string(),
        name: "Artist 8".to_string(),
        genres: vec![],
        external_urls: vec![],
        images: vec![],
    };
    let a = Artist::from(raw);
    assert_eq!(a.url, None);
    assert_eq!(a.spotify_id, Some("id-8".to_string()));
    assert!(a.image_urls.is_empty());
}
