//! The canonical artist shape and the normalization of raw remote records.

use vstd::prelude::*;

verus! {

/// A normalized artist: the one shape every source reports.
///
/// A plain value type: no identity beyond field equality.
pub struct Artist {
    pub name: String,
    pub genres: Vec<String>,
    /// The first external URL the origin record exposed, if any.
    pub url: Option<String>,
    /// The opaque identifier of the artist in the origin system.
    pub spotify_id: Option<String>,
    /// Image URLs in the order the origin record listed them.
    pub image_urls: Vec<String>,
}

/// The mathematical value of an [`Artist`]: every string as its characters.
#[verifier::ext_equal]
pub struct ArtistData {
    pub name: Seq<char>,
    pub genres: Seq<Seq<char>>,
    pub url: Option<Seq<char>>,
    pub spotify_id: Option<Seq<char>>,
    pub image_urls: Seq<Seq<char>>,
}

impl DeepView for Artist {
    type V = ArtistData;

    open spec fn deep_view(&self) -> ArtistData {
        ArtistData {
            name: self.name@,
            genres: self.genres.deep_view(),
            url: self.url.deep_view(),
            spotify_id: self.spotify_id.deep_view(),
            image_urls: self.image_urls.deep_view(),
        }
    }
}

/// One external URL of a raw remote record: the site name it is keyed by,
/// and the URL itself.
pub struct ExternalUrl {
    pub site: String,
    pub url: String,
}

/// The mathematical value of an [`ExternalUrl`].
#[verifier::ext_equal]
pub struct ExternalUrlData {
    pub site: Seq<char>,
    pub url: Seq<char>,
}

impl DeepView for ExternalUrl {
    type V = ExternalUrlData;

    open spec fn deep_view(&self) -> ExternalUrlData {
        ExternalUrlData { site: self.site@, url: self.url@ }
    }
}

/// One image of a raw remote record.
pub struct RawImage {
    pub url: String,
    pub width: Option<u32>,
    pub height: Option<u32>,
}

/// The mathematical value of a [`RawImage`].
#[verifier::ext_equal]
pub struct RawImageData {
    pub url: Seq<char>,
    pub width: Option<u32>,
    pub height: Option<u32>,
}

impl DeepView for RawImage {
    type V = RawImageData;

    open spec fn deep_view(&self) -> RawImageData {
        RawImageData { url: self.url@, width: self.width, height: self.height }
    }
}

/// An artist record as the remote API reports it, before normalization.
pub struct RawArtistRecord {
    /// The remote system's identifier; it doubles as the pagination cursor.
    pub id: String,
    pub name: String,
    pub genres: Vec<String>,
    /// External URLs in the order the record listed them.
    pub external_urls: Vec<ExternalUrl>,
    pub images: Vec<RawImage>,
}

/// The mathematical value of a [`RawArtistRecord`].
#[verifier::ext_equal]
pub struct RawArtistRecordData {
    pub id: Seq<char>,
    pub name: Seq<char>,
    pub genres: Seq<Seq<char>>,
    pub external_urls: Seq<ExternalUrlData>,
    pub images: Seq<RawImageData>,
}

impl DeepView for RawArtistRecord {
    type V = RawArtistRecordData;

    open spec fn deep_view(&self) -> RawArtistRecordData {
        RawArtistRecordData {
            id: self.id@,
            name: self.name@,
            genres: self.genres.deep_view(),
            external_urls: self.external_urls.deep_view(),
            images: self.images.deep_view(),
        }
    }
}

fn clone_strings(v: &Vec<String>) -> (r: Vec<String>)
    ensures
        r.deep_view() == v.deep_view(),
{
    let mut r: Vec<String> = Vec::new();
    let mut i: usize = 0;
    while i < v.len()
        invariant
            i <= v.len(),
            r@.len() == i,
            forall|j: int| 0 <= j < i ==> (#[trigger] r@[j])@ == v@[j]@,
        decreases v.len() - i,
    {
        r.push(v[i].clone());
        i = i + 1;
    }
    proof {
        assert(r.deep_view() =~= v.deep_view());
    }
    r
}

impl Clone for ExternalUrl {
    fn clone(&self) -> (r: Self)
        ensures
            r.deep_view() == self.deep_view(),
    {
        ExternalUrl { site: self.site.clone(), url: self.url.clone() }
    }
}

impl Clone for RawImage {
    fn clone(&self) -> (r: Self)
        ensures
            r.deep_view() == self.deep_view(),
    {
        RawImage { url: self.url.clone(), width: self.width, height: self.height }
    }
}

impl Clone for RawArtistRecord {
    fn clone(&self) -> (r: Self)
        ensures
            r.deep_view() == self.deep_view(),
    {
        let mut external_urls: Vec<ExternalUrl> = Vec::new();
        let mut i: usize = 0;
        while i < self.external_urls.len()
            invariant
                i <= self.external_urls.len(),
                external_urls@.len() == i,
                forall|j: int|
                    0 <= j < i ==> (#[trigger] external_urls@[j]).deep_view()
                        == self.external_urls@[j].deep_view(),
            decreases self.external_urls.len() - i,
        {
            external_urls.push(self.external_urls[i].clone());
            i = i + 1;
        }
        let mut images: Vec<RawImage> = Vec::new();
        let mut k: usize = 0;
        while k < self.images.len()
            invariant
                k <= self.images.len(),
                images@.len() == k,
                forall|j: int|
                    0 <= j < k ==> (#[trigger] images@[j]).deep_view()
                        == self.images@[j].deep_view(),
            decreases self.images.len() - k,
        {
            images.push(self.images[k].clone());
            k = k + 1;
        }
        let r = RawArtistRecord {
            id: self.id.clone(),
            name: self.name.clone(),
            genres: clone_strings(&self.genres),
            external_urls,
            images,
        };
        proof {
            assert(r.deep_view().external_urls =~= self.deep_view().external_urls);
            assert(r.deep_view().images =~= self.deep_view().images);
            assert(r.deep_view() =~= self.deep_view());
        }
        r
    }
}

/// What normalizing a raw record yields: the name and genres carried over,
/// the URL of the first external URL entry if there is one, the remote
/// identifier kept as the source id, and the image URLs in order.
pub open spec fn normalized(r: RawArtistRecordData) -> ArtistData {
    ArtistData {
        name: r.name,
        genres: r.genres,
        url: if r.external_urls.len() > 0 {
            Some(r.external_urls[0].url)
        } else {
            None
        },
        spotify_id: Some(r.id),
        image_urls: r.images.map_values(|img: RawImageData| img.url),
    }
}

/// Normalization applied to every record of a sequence, keeping the order.
pub open spec fn normalized_all(records: Seq<RawArtistRecordData>) -> Seq<ArtistData> {
    records.map_values(|r: RawArtistRecordData| normalized(r))
}

/// Normalizes every record of a listing, in order.
pub fn normalize_records(records: Vec<RawArtistRecord>) -> (r: Vec<Artist>)
    ensures
        r.deep_view() == normalized_all(records.deep_view()),
{
    let mut out: Vec<Artist> = Vec::new();
    let mut i: usize = 0;
    while i < records.len()
        invariant
            i <= records.len(),
            out@.len() == i,
            forall|j: int|
                0 <= j < i ==> (#[trigger] out@[j]).deep_view() == normalized(
                    records@[j].deep_view(),
                ),
        decreases records.len() - i,
    {
        out.push(Artist::from(records[i].clone()));
        i = i + 1;
    }
    proof {
        assert(out.deep_view() =~= normalized_all(records.deep_view()));
    }
    out
}

impl Artist {
    /// Normalizes a raw remote record into the canonical artist shape.
    pub fn from(record: RawArtistRecord) -> (r: Artist)
        ensures
            r.deep_view() == normalized(record.deep_view()),
    {
        let ghost rec = record.deep_view();
        let RawArtistRecord { id, name, genres, mut external_urls, images } = record;
        let url: Option<String> = if external_urls.len() > 0 {
            Some(external_urls.remove(0).url)
        } else {
            None
        };
        let mut image_urls: Vec<String> = Vec::new();
        let mut i: usize = 0;
        while i < images.len()
            invariant
                i <= images.len(),
                image_urls@.len() == i,
                forall|j: int| 0 <= j < i ==> (#[trigger] image_urls@[j])@ == images@[j].url@,
            decreases images.len() - i,
        {
            image_urls.push(images[i].url.clone());
            i = i + 1;
        }
        let r = Artist { name, genres, url, spotify_id: Some(id), image_urls };
        proof {
            assert(r.deep_view().image_urls =~= normalized(rec).image_urls);
            assert(r.deep_view() =~= normalized(rec));
        }
        r
    }
}

} // verus!
