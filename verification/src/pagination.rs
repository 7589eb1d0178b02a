//! Exhaustive cursor-based pagination of the remote "followed artists"
//! collection.
//!
//! The remote collection is fetched one page at a time. A request carries a
//! cursor: the identifier of the last record already fetched, or none for the
//! first page. A response page carries records and the cursor for the next
//! request; a response without a next cursor — in particular every empty
//! page — ends the walk. [`ArtistPagination`] is the client's state machine;
//! the embedding program performs the actual requests and feeds each page
//! back. [`RemoteCollection`] is a faithful in-memory remote used to state
//! and prove what a full walk yields, and to exercise the machine in tests.

use vstd::prelude::*;

use crate::artist::normalized_all;
use crate::artist::Artist;
use crate::artist::ArtistData;
use crate::artist::RawArtistRecord;
use crate::artist::RawArtistRecordData;

verus! {

/// Number of records requested per page.
pub const PAGE_LIMIT: u32 = 50;

/// One page request: the cursor to resume after, if any.
pub struct PageRequest {
    pub limit: u32,
    pub after: Option<String>,
}

/// One page of the remote collection, as the remote answers a request:
/// the records, and the cursor for the request after this one. No next
/// cursor means the collection is exhausted.
pub struct ArtistPage {
    pub items: Vec<RawArtistRecord>,
    pub next: Option<String>,
}

/// The client half of the pagination protocol: accumulates records and
/// tracks the cursor until a page ends the walk.
pub struct ArtistPagination {
    items: Vec<RawArtistRecord>,
    cursor: Option<String>,
    done: bool,
    pages: usize,
}

impl ArtistPagination {
    /// The records accepted so far, in arrival order.
    pub closed spec fn spec_items(&self) -> Seq<RawArtistRecordData> {
        self.items.deep_view()
    }

    /// The cursor the next request will carry.
    pub closed spec fn spec_cursor(&self) -> Option<Seq<char>> {
        self.cursor.deep_view()
    }

    /// Whether the walk has terminated.
    pub closed spec fn spec_done(&self) -> bool {
        self.done
    }

    /// How many pages have been accepted.
    pub closed spec fn spec_pages(&self) -> nat {
        self.pages as nat
    }

    /// A fresh walk: nothing fetched, no cursor, not done.
    pub fn new() -> (r: ArtistPagination)
        ensures
            r.spec_items() =~= Seq::<RawArtistRecordData>::empty(),
            r.spec_cursor() is None,
            !r.spec_done(),
            r.spec_pages() == 0,
    {
        ArtistPagination { items: Vec::new(), cursor: None, done: false, pages: 0 }
    }

    /// The request to issue next: one page of [`PAGE_LIMIT`] records after
    /// the current cursor, or nothing once the walk has terminated.
    pub fn next_request(&self) -> (r: Option<PageRequest>)
        ensures
            match r {
                Some(req) => !self.spec_done() && req.limit == PAGE_LIMIT
                    && req.after.deep_view() == self.spec_cursor(),
                None => self.spec_done(),
            },
    {
        if self.done {
            None
        } else {
            let after: Option<String> = match &self.cursor {
                Some(c) => Some(c.clone()),
                None => None,
            };
            Some(PageRequest { limit: PAGE_LIMIT, after })
        }
    }

    /// Accepts the page answering the last request: appends every record,
    /// moves the cursor to the page's next cursor, and terminates the walk
    /// on a page that carries none — in particular on an empty page.
    pub fn accept_page(&mut self, page: ArtistPage)
        requires
            !old(self).spec_done(),
            old(self).spec_pages() < usize::MAX,
        ensures
            final(self).spec_items() =~= old(self).spec_items() + page.items.deep_view(),
            final(self).spec_pages() == old(self).spec_pages() + 1,
            final(self).spec_done() <==> (page.items@.len() == 0 || page.next is None),
            !final(self).spec_done() ==> final(self).spec_cursor() == page.next.deep_view(),
    {
        let ArtistPage { mut items, next } = page;
        let empty = items.len() == 0;
        self.items.append(&mut items);
        self.pages = self.pages + 1;
        match next {
            None => {
                self.done = true;
                self.cursor = None;
            },
            Some(c) => {
                if empty {
                    self.done = true;
                    self.cursor = None;
                } else {
                    self.cursor = Some(c);
                }
            },
        }
    }

    /// Whether the walk has terminated.
    pub fn is_done(&self) -> (r: bool)
        ensures
            r == self.spec_done(),
    {
        self.done
    }

    /// How many pages were accepted.
    pub fn pages_fetched(&self) -> (r: usize)
        ensures
            r as nat == self.spec_pages(),
    {
        self.pages
    }

    /// Hands out everything fetched, in arrival order.
    pub fn into_items(self) -> (r: Vec<RawArtistRecord>)
        ensures
            r.deep_view() == self.spec_items(),
    {
        self.items
    }
}

/// No two records carry the same identifier, so a cursor names at most one
/// position.
pub open spec fn distinct_ids(records: Seq<RawArtistRecordData>) -> bool {
    forall|i: int, j: int|
        0 <= i < j < records.len() ==> records[i].id != records[j].id
}

/// The position of the first record carrying the given identifier.
pub open spec fn find_id(records: Seq<RawArtistRecordData>, id: Seq<char>) -> Option<int>
    decreases records.len(),
{
    if records.len() == 0 {
        None
    } else if records[0].id == id {
        Some(0)
    } else {
        match find_id(records.drop_first(), id) {
            Some(i) => Some(i + 1),
            None => None,
        }
    }
}

proof fn lemma_find_id_present(records: Seq<RawArtistRecordData>, k: int)
    requires
        0 <= k < records.len(),
        forall|j: int| 0 <= j < k ==> records[j].id != records[k].id,
    ensures
        find_id(records, records[k].id) == Some(k),
    decreases k,
{
    if records[0].id == records[k].id {
        assert(k == 0);
    } else {
        assert(k > 0);
        let rest = records.drop_first();
        assert(rest[k - 1] == records[k]);
        assert(forall|j: int| 0 <= j < k - 1 ==> (#[trigger] rest[j]).id != rest[k - 1].id);
        lemma_find_id_present(rest, k - 1);
    }
}

proof fn lemma_find_id_absent(records: Seq<RawArtistRecordData>, id: Seq<char>)
    requires
        forall|j: int| 0 <= j < records.len() ==> records[j].id != id,
    ensures
        find_id(records, id) is None,
    decreases records.len(),
{
    if records.len() > 0 {
        let rest = records.drop_first();
        assert(forall|j: int| 0 <= j < rest.len() ==> (#[trigger] rest[j]).id != id);
        lemma_find_id_absent(rest, id);
    }
}

/// Where the page answering a request with the given cursor starts: at the
/// front for no cursor, else right after the record the cursor names. An
/// unknown cursor yields an empty page.
pub open spec fn page_start(records: Seq<RawArtistRecordData>, after: Option<Seq<char>>) -> int {
    match after {
        None => 0,
        Some(id) => match find_id(records, id) {
            Some(i) => i + 1,
            None => records.len() as int,
        },
    }
}

/// Where that page ends: after at most `limit` records.
pub open spec fn page_end(records: Seq<RawArtistRecordData>, after: Option<Seq<char>>, limit: u32) -> int {
    let start = page_start(records, after);
    if start + limit <= records.len() {
        start + limit
    } else {
        records.len() as int
    }
}

/// The records of that page.
pub open spec fn spec_page_items(
    records: Seq<RawArtistRecordData>,
    after: Option<Seq<char>>,
    limit: u32,
) -> Seq<RawArtistRecordData> {
    records.subrange(page_start(records, after), page_end(records, after, limit))
}

/// The next cursor that page carries: the identifier of its last record,
/// or none when the page is empty or reaches the end of the collection.
pub open spec fn spec_page_next(
    records: Seq<RawArtistRecordData>,
    after: Option<Seq<char>>,
    limit: u32,
) -> Option<Seq<char>> {
    let start = page_start(records, after);
    let end = page_end(records, after, limit);
    if start < end && end < records.len() {
        Some(records[end - 1].id)
    } else {
        None
    }
}

/// An in-memory remote collection answering page requests exactly as the
/// remote API does: the model the pagination proofs and tests run against.
pub struct RemoteCollection {
    records: Vec<RawArtistRecord>,
}

impl RemoteCollection {
    /// The full collection, in remote order.
    pub closed spec fn spec_records(&self) -> Seq<RawArtistRecordData> {
        self.records.deep_view()
    }

    /// Record identifiers are pairwise distinct.
    pub open spec fn wf(&self) -> bool {
        distinct_ids(self.spec_records())
    }

    /// How many records the collection holds.
    pub fn len(&self) -> (r: usize)
        ensures
            r as nat == self.spec_records().len(),
    {
        self.records.len()
    }

    /// Wraps a record list, checking that its identifiers are pairwise
    /// distinct — only then does a cursor name at most one position. A
    /// duplicate identifier yields nothing.
    pub fn new(records: Vec<RawArtistRecord>) -> (r: Option<RemoteCollection>)
        ensures
            match r {
                Some(c) => c.spec_records() == records.deep_view() && c.wf(),
                None => !distinct_ids(records.deep_view()),
            },
    {
        let n = records.len();
        let mut i: usize = 0;
        while i < n
            invariant
                n == records@.len(),
                i <= n,
                forall|a: int, b: int|
                    0 <= a < b < i ==> (#[trigger] records@[a]).deep_view().id
                        != (#[trigger] records@[b]).deep_view().id,
            decreases n - i,
        {
            let mut j: usize = 0;
            while j < i
                invariant
                    i < n == records@.len(),
                    j <= i,
                    forall|a: int|
                        0 <= a < j ==> (#[trigger] records@[a]).deep_view().id
                            != records@[i as int].deep_view().id,
                decreases i - j,
            {
                if records[j].id == records[i].id {
                    proof {
                        assert(records.deep_view()[j as int].id
                            == records.deep_view()[i as int].id);
                        assert(!distinct_ids(records.deep_view()));
                    }
                    return None;
                }
                j = j + 1;
            }
            i = i + 1;
        }
        proof {
            assert forall|a: int, b: int|
                0 <= a < b < records.deep_view().len() implies records.deep_view()[a].id
                != records.deep_view()[b].id by {
                assert(records@[a].deep_view().id != records@[b].deep_view().id);
            }
        }
        Some(RemoteCollection { records })
    }

    fn find_index(&self, id: &String) -> (r: Option<usize>)
        ensures
            match r {
                Some(i) => i < self.spec_records().len() && find_id(self.spec_records(), id@)
                    == Some(i as int),
                None => find_id(self.spec_records(), id@) is None,
            },
    {
        let mut i: usize = 0;
        while i < self.records.len()
            invariant
                i <= self.spec_records().len(),
                forall|j: int| 0 <= j < i ==> self.spec_records()[j].id != id@,
            decreases self.records.len() - i,
        {
            if self.records[i].id == *id {
                proof {
                    lemma_find_id_present(self.spec_records(), i as int);
                }
                return Some(i);
            }
            i = i + 1;
        }
        proof {
            lemma_find_id_absent(self.spec_records(), id@);
        }
        None
    }

    /// Answers one page request: up to `limit` records after the cursor,
    /// and the cursor for the request after this one.
    pub fn page_after(&self, req: &PageRequest) -> (r: ArtistPage)
        requires
            self.wf(),
        ensures
            r.items.deep_view() == spec_page_items(self.spec_records(), req.after.deep_view(), req.limit),
            r.next.deep_view() == spec_page_next(self.spec_records(), req.after.deep_view(), req.limit),
    {
        let n = self.records.len();
        let start: usize = match &req.after {
            None => 0,
            Some(id) => match self.find_index(id) {
                Some(i) => i + 1,
                None => n,
            },
        };
        let end: usize = if (req.limit as usize) <= n - start {
            start + (req.limit as usize)
        } else {
            n
        };
        let mut items: Vec<RawArtistRecord> = Vec::new();
        let mut k = start;
        while k < end
            invariant
                start <= k <= end <= self.spec_records().len(),
                items@.len() == k - start,
                forall|j: int|
                    0 <= j < k - start ==> (#[trigger] items@[j]).deep_view()
                        == self.spec_records()[start + j],
            decreases end - k,
        {
            items.push(self.records[k].clone());
            k = k + 1;
        }
        proof {
            assert(items.deep_view() =~= self.spec_records().subrange(start as int, end as int));
        }
        let next: Option<String> = if start < end && end < n {
            Some(self.records[end - 1].id.clone())
        } else {
            None
        };
        ArtistPage { items, next }
    }
}

/// How many page requests a full walk of an `n`-record collection issues:
/// one for the empty collection, else one per started block of
/// [`PAGE_LIMIT`] records.
pub open spec fn spec_page_count(n: nat) -> nat {
    if n == 0 {
        1
    } else {
        (n + (PAGE_LIMIT - 1) as nat) / (PAGE_LIMIT as nat)
    }
}

/// Walks the whole collection page by page, exactly as the embedding
/// program walks the real remote: every record is fetched once, in order,
/// and the number of requests is pinned — a trailing page that carries no
/// next cursor ends the walk with no extra request.
pub fn all_followed_artists(collection: &RemoteCollection) -> (r: (Vec<RawArtistRecord>, usize))
    requires
        collection.wf(),
    ensures
        r.0.deep_view() == collection.spec_records(),
        r.1 as nat == spec_page_count(collection.spec_records().len()),
{
    let ghost records = collection.spec_records();
    let total = collection.len();
    let ghost n = records.len() as int;
    let mut pager = ArtistPagination::new();
    while !pager.is_done()
        invariant
            collection.wf(),
            records == collection.spec_records(),
            n == records.len() as int,
            n == total as int,
            pager.spec_items() == records.take(pager.spec_items().len() as int),
            pager.spec_items().len() <= n,
            !pager.spec_done() ==> {
                let k = pager.spec_items().len() as int;
                &&& k % (PAGE_LIMIT as int) == 0
                &&& pager.spec_pages() * (PAGE_LIMIT as int) == k
                &&& (k == 0 ==> pager.spec_cursor() is None)
                &&& (k > 0 ==> k < n && pager.spec_cursor() == Some(records[k - 1].id))
            },
            pager.spec_done() ==> pager.spec_items().len() == n && pager.spec_pages()
                == spec_page_count(records.len()),
        decreases n - pager.spec_items().len() + (if pager.spec_done() { 0int } else { 1int }),
    {
        let ghost k = pager.spec_items().len() as int;
        let req = pager.next_request().unwrap();
        proof {
            if k > 0 {
                assert(forall|j: int|
                    0 <= j < k - 1 ==> (#[trigger] records[j]).id != records[k - 1].id);
                lemma_find_id_present(records, k - 1);
            }
            assert(page_start(records, req.after.deep_view()) == k);
        }
        let page = collection.page_after(&req);
        let ghost end = page_end(records, req.after.deep_view(), req.limit);
        let ghost p = pager.spec_pages();
        proof {
            assert(pager.spec_items() + page.items.deep_view() =~= records.take(end));
            assert(0 <= k <= usize::MAX);
            assert(pager.spec_pages() < usize::MAX as nat) by (nonlinear_arith)
                requires
                    pager.spec_pages() * (PAGE_LIMIT as int) == k,
                    0 <= k <= usize::MAX,
                    PAGE_LIMIT == 50,
            ;
        }
        pager.accept_page(page);
        proof {
            let k2 = pager.spec_items().len() as int;
            assert(k2 == end);
            if k < n {
                if end < n {
                    // a full page that leaves more behind: the walk goes on
                    assert(end == k + PAGE_LIMIT);
                    assert(page.items@.len() == PAGE_LIMIT);
                    assert(!pager.spec_done());
                    assert(k2 % (PAGE_LIMIT as int) == 0) by (nonlinear_arith)
                        requires
                            k % (PAGE_LIMIT as int) == 0,
                            k2 == k + PAGE_LIMIT,
                            PAGE_LIMIT == 50,
                    ;
                    assert(pager.spec_pages() == p + 1);
                    assert((p + 1) * (PAGE_LIMIT as int) == k + (PAGE_LIMIT as int))
                        by (nonlinear_arith)
                        requires
                            p * (PAGE_LIMIT as int) == k,
                    ;
                    assert(pager.spec_pages() * (PAGE_LIMIT as int) == k2);
                    assert(pager.spec_cursor() == Some(records[k2 - 1].id));
                } else {
                    // the page reaching the end carries no next cursor
                    assert(end == n);
                    assert(pager.spec_done());
                    assert(pager.spec_pages() == p + 1);
                    assert(p + 1 == (n + (PAGE_LIMIT - 1) as int) / (PAGE_LIMIT as int))
                        by (nonlinear_arith)
                        requires
                            p * (PAGE_LIMIT as int) == k,
                            k < n <= k + (PAGE_LIMIT as int),
                            0 <= k,
                            PAGE_LIMIT == 50,
                    ;
                    assert(spec_page_count(records.len()) == (n + (PAGE_LIMIT - 1) as int) / (
                    PAGE_LIMIT as int));
                    assert(pager.spec_pages() == spec_page_count(records.len()));
                }
            } else {
                // the collection was empty: its one page is empty and final
                assert(k == 0 && n == 0 && end == 0);
                assert(pager.spec_done());
                assert(p == 0) by (nonlinear_arith)
                    requires
                        p * (PAGE_LIMIT as int) == 0,
                        p >= 0,
                        PAGE_LIMIT == 50,
                ;
                assert(pager.spec_pages() == 1);
                assert(pager.spec_pages() == spec_page_count(records.len()));
            }
        }
    }
    let pages = pager.pages_fetched();
    let items = pager.into_items();
    proof {
        assert(records.take(records.len() as int) =~= records);
    }
    (items, pages)
}

/// The remote listing as one step: a full walk of the collection followed
/// by normalization of every record, in order.
pub fn remote_artists(collection: &RemoteCollection) -> (r: Vec<Artist>)
    requires
        collection.wf(),
    ensures
        r.deep_view() == normalized_all(collection.spec_records()),
{
    let (records, _) = all_followed_artists(collection);
    crate::artist::normalize_records(records)
}

/// Pagination idempotence: a full walk is a function of the collection
/// alone, so two listings taken from the same unchanged collection — each a
/// walk followed by normalization, as [`all_followed_artists`] and
/// [`crate::artist::normalize_records`] pin them — are the same artist
/// sequence.
pub proof fn lemma_refetch_unchanged(
    collection: &RemoteCollection,
    first: Seq<ArtistData>,
    second: Seq<ArtistData>,
)
    requires
        first == normalized_all(collection.spec_records()),
        second == normalized_all(collection.spec_records()),
    ensures
        first == second,
{
}

} // verus!
