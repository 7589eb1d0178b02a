//! The music sources, the library that owns them, and the partial-failure
//! aggregation policy.

use vstd::prelude::*;

use crate::artist::Artist;
use crate::auth::RemoteHandle;
use crate::error::FetchError;

verus! {

/// A named local music directory.
pub struct LocalDir {
    pub name: String,
    pub path: String,
}

impl LocalDir {
    /// Names a directory root.
    pub fn new(name: &str, path: &str) -> (r: LocalDir)
        ensures
            r.name@ == name@,
            r.path@ == path@,
    {
        LocalDir { name: name.to_owned(), path: path.to_owned() }
    }

    /// Lists the artists of the directory. Scanning is not implemented;
    /// the empty listing is the valid zero-result outcome, not an error.
    pub fn get_artists(&self) -> (r: Result<Vec<Artist>, FetchError>)
        ensures
            r matches Ok(v) && v@ =~= Seq::<Artist>::empty(),
    {
        Ok(Vec::new())
    }
}

/// A backend that can list artists: the closed set of source variants.
/// Adding a backend means adding one variant with this one capability.
pub enum MusicSource {
    /// An authenticated remote session. Construction requires a ready
    /// handle, so an unauthenticated remote source cannot exist.
    SpotifyClient(RemoteHandle),
    /// A named local directory.
    LocalDirectory(LocalDir),
}

/// What a source's listing yields. A local directory answers by itself; a
/// remote source's answer is the outcome of the remote walk the embedding
/// program performed for it, which `fetched` supplies.
pub open spec fn spec_listed(
    source: MusicSource,
    fetched: Result<Vec<Artist>, FetchError>,
) -> Result<Seq<Artist>, FetchError> {
    match source {
        MusicSource::LocalDirectory(_) => Ok(Seq::<Artist>::empty()),
        MusicSource::SpotifyClient(_) => match fetched {
            Ok(v) => Ok(v@),
            Err(e) => Err(e),
        },
    }
}

/// What a source contributes to the aggregate: its artists on success,
/// nothing on failure.
pub open spec fn spec_contribution(
    source: MusicSource,
    fetched: Result<Vec<Artist>, FetchError>,
) -> Seq<Artist> {
    match spec_listed(source, fetched) {
        Ok(s) => s,
        Err(_) => Seq::<Artist>::empty(),
    }
}

impl MusicSource {
    /// Wraps a ready remote handle as a source. Authentication happened
    /// while acquiring the handle; the variant holds no further state.
    pub fn new_spotify_client(handle: RemoteHandle) -> (r: MusicSource)
        ensures
            r == MusicSource::SpotifyClient(handle),
    {
        MusicSource::SpotifyClient(handle)
    }

    /// Wraps a named directory root as a source.
    pub fn new_local_dir_client(name: &str, path: &str) -> (r: MusicSource)
        ensures
            r matches MusicSource::LocalDirectory(d) && d.name@ == name@ && d.path@ == path@,
    {
        MusicSource::LocalDirectory(LocalDir::new(name, path))
    }

    /// The one capability: list artists, dispatched by variant. `fetched`
    /// is the remote walk's outcome for a remote source, and is ignored by
    /// a local one.
    pub fn get_artists(&self, fetched: Result<Vec<Artist>, FetchError>) -> (r: Result<
        Vec<Artist>,
        FetchError,
    >)
        ensures
            match spec_listed(*self, fetched) {
                Ok(s) => r matches Ok(v) && v@ == s,
                Err(e) => r matches Err(e2) && e2 == e,
            },
    {
        match self {
            MusicSource::LocalDirectory(d) => d.get_artists(),
            MusicSource::SpotifyClient(_) => fetched,
        }
    }
}

/// The sources with every remote entry dropped, in order.
pub open spec fn non_spotify(sources: Seq<MusicSource>) -> Seq<MusicSource>
    decreases sources.len(),
{
    if sources.len() == 0 {
        Seq::<MusicSource>::empty()
    } else {
        non_spotify(sources.drop_last()) + (if sources.last() is SpotifyClient {
            Seq::<MusicSource>::empty()
        } else {
            seq![sources.last()]
        })
    }
}

/// The aggregate listing: what each source contributes, concatenated in
/// source-registration order.
pub open spec fn merged_artists(
    sources: Seq<MusicSource>,
    fetched: Seq<Result<Vec<Artist>, FetchError>>,
) -> Seq<Artist>
    decreases sources.len(),
{
    if sources.len() == 0 {
        Seq::<Artist>::empty()
    } else {
        merged_artists(sources.drop_last(), fetched.drop_last()) + spec_contribution(
            sources.last(),
            fetched.last(),
        )
    }
}

/// The concatenation of every source's own successful listing, in order.
pub open spec fn concat_listed(
    sources: Seq<MusicSource>,
    fetched: Seq<Result<Vec<Artist>, FetchError>>,
) -> Seq<Artist>
    decreases sources.len(),
{
    if sources.len() == 0 {
        Seq::<Artist>::empty()
    } else {
        concat_listed(sources.drop_last(), fetched.drop_last()) + spec_listed(
            sources.last(),
            fetched.last(),
        )->Ok_0
    }
}

/// When every source succeeds, the aggregate is exactly the ordered
/// concatenation of each source's own listing.
pub proof fn lemma_all_sources_succeed(
    sources: Seq<MusicSource>,
    fetched: Seq<Result<Vec<Artist>, FetchError>>,
)
    requires
        sources.len() == fetched.len(),
        forall|i: int|
            0 <= i < sources.len() ==> (#[trigger] spec_listed(sources[i], fetched[i])) is Ok,
    ensures
        merged_artists(sources, fetched) == concat_listed(sources, fetched),
    decreases sources.len(),
{
    if sources.len() > 0 {
        let n = sources.len() as int;
        assert forall|i: int|
            0 <= i < n - 1 implies (#[trigger] spec_listed(
            sources.drop_last()[i],
            fetched.drop_last()[i],
        )) is Ok by {
            assert(sources.drop_last()[i] == sources[i]);
            assert(fetched.drop_last()[i] == fetched[i]);
            assert(spec_listed(sources[i], fetched[i]) is Ok);
        }
        lemma_all_sources_succeed(sources.drop_last(), fetched.drop_last());
        assert(spec_listed(sources[n - 1], fetched[n - 1]) is Ok);
        assert(sources.last() == sources[n - 1] && fetched.last() == fetched[n - 1]);
    }
}

/// When exactly one source fails, the aggregate still succeeds and is the
/// concatenation of the remaining sources' listings only: the failure is
/// contained, never propagated.
pub proof fn lemma_one_source_fails(
    sources: Seq<MusicSource>,
    fetched: Seq<Result<Vec<Artist>, FetchError>>,
    j: int,
)
    requires
        sources.len() == fetched.len(),
        0 <= j < sources.len(),
        spec_listed(sources[j], fetched[j]) is Err,
        forall|i: int|
            0 <= i < sources.len() && i != j ==> (#[trigger] spec_listed(sources[i], fetched[i]))
                is Ok,
    ensures
        merged_artists(sources, fetched) == concat_listed(sources.remove(j), fetched.remove(j)),
    decreases sources.len(),
{
    let n = sources.len() as int;
    if j == n - 1 {
        assert(sources.last() == sources[j] && fetched.last() == fetched[j]);
        assert(spec_contribution(sources.last(), fetched.last()) =~= Seq::<Artist>::empty());
        assert forall|i: int|
            0 <= i < n - 1 implies (#[trigger] spec_listed(
            sources.drop_last()[i],
            fetched.drop_last()[i],
        )) is Ok by {
            assert(sources.drop_last()[i] == sources[i]);
            assert(fetched.drop_last()[i] == fetched[i]);
            assert(spec_listed(sources[i], fetched[i]) is Ok);
        }
        lemma_all_sources_succeed(sources.drop_last(), fetched.drop_last());
        assert(sources.remove(j) =~= sources.drop_last());
        assert(fetched.remove(j) =~= fetched.drop_last());
        assert(merged_artists(sources, fetched) =~= merged_artists(
            sources.drop_last(),
            fetched.drop_last(),
        ));
    } else {
        assert(sources.drop_last()[j] == sources[j]);
        assert(fetched.drop_last()[j] == fetched[j]);
        assert forall|i: int|
            0 <= i < n - 1 && i != j implies (#[trigger] spec_listed(
            sources.drop_last()[i],
            fetched.drop_last()[i],
        )) is Ok by {
            assert(sources.drop_last()[i] == sources[i]);
            assert(fetched.drop_last()[i] == fetched[i]);
            assert(spec_listed(sources[i], fetched[i]) is Ok);
        }
        lemma_one_source_fails(sources.drop_last(), fetched.drop_last(), j);
        assert(sources.remove(j).drop_last() =~= sources.drop_last().remove(j));
        assert(fetched.remove(j).drop_last() =~= fetched.drop_last().remove(j));
        assert(sources.remove(j).last() == sources.last());
        assert(fetched.remove(j).last() == fetched.last());
        assert(spec_listed(sources[n - 1], fetched[n - 1]) is Ok);
        assert(sources.last() == sources[n - 1] && fetched.last() == fetched[n - 1]);
        assert(sources.remove(j).len() == n - 1);
    }
}

/// The library: an ordered collection of sources, supplied at construction.
pub struct MusicLibrary {
    sources: Vec<MusicSource>,
}

impl MusicLibrary {
    /// The sources, in registration order.
    pub closed spec fn spec_sources(&self) -> Seq<MusicSource> {
        self.sources@
    }

    /// Builds a library over the supplied sources; it is read-only
    /// afterwards apart from the explicit registration methods.
    pub fn new(sources: Vec<MusicSource>) -> (r: MusicLibrary)
        ensures
            r.spec_sources() == sources@,
    {
        MusicLibrary { sources }
    }

    /// The registered sources, in order.
    pub fn sources(&self) -> (r: &Vec<MusicSource>)
        ensures
            r@ == self.spec_sources(),
    {
        &self.sources
    }

    /// Makes the given handle the library's one remote source: it comes
    /// first, any previous remote source is dropped, and the local sources
    /// keep their order.
    pub fn set_spotify(&mut self, handle: RemoteHandle)
        ensures
            final(self).spec_sources() == seq![MusicSource::SpotifyClient(handle)] + non_spotify(
                old(self).spec_sources(),
            ),
    {
        let mut rest: Vec<MusicSource> = Vec::new();
        core::mem::swap(&mut rest, &mut self.sources);
        let ghost orig = rest@;
        let total = rest.len();
        let mut kept: Vec<MusicSource> = Vec::new();
        kept.push(MusicSource::SpotifyClient(handle));
        let mut i: usize = 0;
        while rest.len() > 0
            invariant
                i <= orig.len(),
                orig.len() == total as int,
                rest@ == orig.skip(i as int),
                kept@ == seq![MusicSource::SpotifyClient(handle)] + non_spotify(
                    orig.take(i as int),
                ),
            decreases rest@.len(),
        {
            let s = rest.remove(0);
            proof {
                assert(s == orig[i as int]);
                assert(rest@ =~= orig.skip(i + 1));
                assert(orig.take(i + 1).drop_last() =~= orig.take(i as int));
                assert(orig.take(i + 1).last() == orig[i as int]);
            }
            match s {
                MusicSource::SpotifyClient(_) => {},
                MusicSource::LocalDirectory(d) => {
                    kept.push(MusicSource::LocalDirectory(d));
                },
            }
            i = i + 1;
        }
        proof {
            assert(orig.take(orig.len() as int) =~= orig);
        }
        self.sources = kept;
    }

    /// Registers one more local directory source, after the existing ones.
    pub fn add_dir(&mut self, name: &str, path: &str)
        ensures
            final(self).spec_sources().len() == old(self).spec_sources().len() + 1,
            final(self).spec_sources().drop_last() == old(self).spec_sources(),
            final(self).spec_sources().last() matches MusicSource::LocalDirectory(d)
                && d.name@ == name@ && d.path@ == path@,
    {
        self.sources.push(MusicSource::LocalDirectory(LocalDir::new(name, path)));
        proof {
            assert(self.sources@.drop_last() =~= old(self).sources@);
        }
    }

    /// The partial-failure aggregation: every source is asked in
    /// registration order; a failing source contributes nothing and is
    /// swallowed; the whole operation never fails. `fetched` holds the
    /// remote walk's outcome for each source, in the same order (the entry
    /// of a local source is ignored).
    pub fn get_artists(&self, fetched: Vec<Result<Vec<Artist>, FetchError>>) -> (r: Result<
        Vec<Artist>,
        FetchError,
    >)
        requires
            fetched@.len() == self.spec_sources().len(),
        ensures
            r matches Ok(v) && v@ == merged_artists(self.spec_sources(), fetched@),
    {
        let (artists, _) = self.get_artists_with_status(fetched);
        Ok(artists)
    }

    /// The same aggregation, with a per-source report beside the merged
    /// list: the entry of a source is the error its listing failed with,
    /// or nothing when it contributed normally. The merged list stays
    /// available whatever degraded.
    pub fn get_artists_with_status(&self, fetched: Vec<Result<Vec<Artist>, FetchError>>) -> (r: (
        Vec<Artist>,
        Vec<Option<FetchError>>,
    ))
        requires
            fetched@.len() == self.spec_sources().len(),
        ensures
            r.0@ == merged_artists(self.spec_sources(), fetched@),
            r.1@ == spec_statuses(self.spec_sources(), fetched@),
    {
        let ghost all = fetched@;
        let mut rem = fetched;
        let mut acc: Vec<Artist> = Vec::new();
        let mut statuses: Vec<Option<FetchError>> = Vec::new();
        let mut i: usize = 0;
        while i < self.sources.len()
            invariant
                i <= self.sources@.len(),
                all.len() == self.sources@.len(),
                rem@ == all.skip(i as int),
                acc@ == merged_artists(self.spec_sources().take(i as int), all.take(i as int)),
                statuses@.len() == i,
                forall|j: int|
                    0 <= j < i ==> statuses@[j] == spec_statuses(self.spec_sources(), all)[j],
            decreases self.sources@.len() - i,
        {
            let f = rem.remove(0);
            proof {
                assert(f == all[i as int]);
                assert(rem@ =~= all.skip(i + 1));
                assert(self.spec_sources().take(i + 1).drop_last() =~= self.spec_sources().take(
                    i as int,
                ));
                assert(all.take(i + 1).drop_last() =~= all.take(i as int));
                assert(self.spec_sources().take(i + 1).last() == self.spec_sources()[i as int]);
                assert(all.take(i + 1).last() == all[i as int]);
            }
            let listed = match &self.sources[i] {
                MusicSource::LocalDirectory(d) => d.get_artists(),
                MusicSource::SpotifyClient(_) => f,
            };
            match listed {
                Ok(mut v) => {
                    acc.append(&mut v);
                    statuses.push(None);
                },
                Err(e) => {
                    statuses.push(Some(e));
                },
            }
            proof {
                assert(acc@ =~= merged_artists(
                    self.spec_sources().take(i + 1),
                    all.take(i + 1),
                ));
            }
            i = i + 1;
        }
        proof {
            assert(self.spec_sources().take(self.spec_sources().len() as int)
                =~= self.spec_sources());
            assert(all.take(all.len() as int) =~= all);
            assert(statuses@ =~= spec_statuses(self.spec_sources(), all));
        }
        (acc, statuses)
    }
}

/// The per-source report beside the aggregate: the error each source's
/// listing failed with, or nothing where it succeeded.
pub open spec fn spec_statuses(
    sources: Seq<MusicSource>,
    fetched: Seq<Result<Vec<Artist>, FetchError>>,
) -> Seq<Option<FetchError>> {
    Seq::new(
        sources.len(),
        |i: int|
            match spec_listed(sources[i], fetched[i]) {
                Ok(_) => None,
                Err(e) => Some(e),
            },
    )
}

} // verus!
