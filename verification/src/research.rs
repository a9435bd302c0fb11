//! The research orchestrator: the result store, the batches in which the
//! candidates are worked on, and what is decided for each source.
//!
//! Requests, waiting and the clock are the caller's part. It drives one
//! research call through [`begin`], then takes batch after batch from the
//! [`ResearchRun`]; for each source of a batch it asks [`plan_source`] what to
//! do, reports what came of it to [`complete_source`], and hands the outcome
//! to [`settle`]. At the end, or when its deadline has passed, it takes a
//! [`ResultStore::snapshot`].

use vstd::prelude::*;
use crate::cache::{
    document_view, fresh_at, read, readable, store_after_write, stored_for, written,
    CachedDocument, CachedDocumentView, FRESHNESS_WINDOW_SECS,
};
use crate::encoding::{parses_as_url, url_parses};
use crate::fetch::{content_view, FetchError};
use crate::search::{candidate_views, SearchCandidate, SearchCandidateView, SearchError};
use crate::summarizer::{reply_view, summarize, summary_of, SummaryError};
use crate::text::{chars_of, equals};

verus! {

/// How many sources are worked on at once.
pub const BATCH_SIZE: usize = 4;

/// What is published for one source.
#[derive(Debug, PartialEq, Eq)]
pub struct SourceResult {
    pub url: String,
    pub snippet: String,
    pub content: String,
    pub summary: String,
}

/// A result as specifications see it.
pub struct SourceResultView {
    pub url: Seq<char>,
    pub snippet: Seq<char>,
    pub content: Seq<char>,
    pub summary: Seq<char>,
}

impl View for SourceResult {
    type V = SourceResultView;

    open spec fn view(&self) -> SourceResultView {
        SourceResultView {
            url: self.url@,
            snippet: self.snippet@,
            content: self.content@,
            summary: self.summary@,
        }
    }
}

impl Clone for SourceResult {
    fn clone(&self) -> (r: Self)
        ensures
            r@ == self@,
    {
        SourceResult {
            url: self.url.clone(),
            snippet: self.snippet.clone(),
            content: self.content.clone(),
            summary: self.summary.clone(),
        }
    }
}

/// The views of a sequence of results.
pub open spec fn result_views(v: Seq<SourceResult>) -> Seq<SourceResultView> {
    v.map_values(|r: SourceResult| r@)
}

/// The result of a candidate that nothing was fetched for yet.
pub open spec fn seeded(c: SearchCandidateView) -> SourceResultView {
    SourceResultView { url: c.url, snippet: c.snippet, content: Seq::empty(), summary: Seq::empty() }
}

/// One empty result for each candidate, in the order of the candidates.
pub open spec fn seeded_all(candidates: Seq<SearchCandidateView>) -> Seq<SourceResultView> {
    candidates.map_values(|c: SearchCandidateView| seeded(c))
}

/// The position of the first result for `url`, or the number of results
/// where there is none.
pub open spec fn first_with_url(results: Seq<SourceResultView>, url: Seq<char>) -> int
    decreases results.len(),
{
    if results.len() == 0 {
        0
    } else if results[0].url == url {
        0
    } else {
        1 + first_with_url(results.skip(1), url)
    }
}

/// A result with what `doc` holds of its source.
pub open spec fn filled(result: SourceResultView, doc: CachedDocumentView) -> SourceResultView {
    SourceResultView {
        url: result.url,
        snippet: doc.snippet,
        content: doc.document,
        summary: doc.summary,
    }
}

/// The results after `doc` was published: the first result for its URL is
/// filled from it, and nothing else changes. Where no result is for its URL,
/// nothing changes at all.
pub open spec fn published(results: Seq<SourceResultView>, doc: CachedDocumentView) -> Seq<
    SourceResultView,
> {
    let at = first_with_url(results, doc.url);
    if at < results.len() {
        results.update(at, filled(results[at], doc))
    } else {
        results
    }
}

/// The results after the outcome for one source was settled: a document is
/// published, a failure changes nothing.
pub open spec fn settled(
    results: Seq<SourceResultView>,
    outcome: Result<CachedDocumentView, FetchError>,
) -> Seq<SourceResultView> {
    match outcome {
        Ok(doc) => published(results, doc),
        Err(_) => results,
    }
}

/// The results after some outcomes were settled, one after another.
pub open spec fn settled_all(
    results: Seq<SourceResultView>,
    outcomes: Seq<Result<CachedDocumentView, FetchError>>,
) -> Seq<SourceResultView>
    decreases outcomes.len(),
{
    if outcomes.len() == 0 {
        results
    } else {
        settled(settled_all(results, outcomes.drop_last()), outcomes.last())
    }
}

/// How many of `count` candidates are worked on under the limit `limit`.
pub open spec fn work_length(count: nat, limit: nat) -> nat {
    if count <= limit {
        count
    } else {
        limit
    }
}

/// Where the batch that begins at `start` ends, with `work` sources to work
/// on in all.
pub open spec fn batch_end(start: nat, work: nat) -> nat {
    if start + BATCH_SIZE <= work {
        start + BATCH_SIZE as nat
    } else {
        work
    }
}

/// What is done for one source.
#[derive(Debug, PartialEq, Eq)]
pub enum SourcePlan {
    /// Its address is no URL: nothing is read or requested.
    Reject(FetchError),
    /// The cache holds a fresh record: it is used, and nothing is requested.
    Reuse(CachedDocument),
    /// The page is fetched.
    Fetch,
}

/// A plan as specifications see it.
pub enum SourcePlanView {
    Reject(FetchError),
    Reuse(CachedDocumentView),
    Fetch,
}

impl View for SourcePlan {
    type V = SourcePlanView;

    open spec fn view(&self) -> SourcePlanView {
        match *self {
            SourcePlan::Reject(e) => SourcePlanView::Reject(e),
            SourcePlan::Reuse(d) => SourcePlanView::Reuse(d@),
            SourcePlan::Fetch => SourcePlanView::Fetch,
        }
    }
}

/// What is done for a source whose address is a URL or not (`valid`), given
/// what the cache holds for it at `now`.
pub open spec fn plan_for(valid: bool, stored: Option<CachedDocumentView>, now: u64)
    -> SourcePlanView {
    if !valid {
        SourcePlanView::Reject(FetchError::InvalidUrl)
    } else {
        match readable(stored, now) {
            Some(doc) => SourcePlanView::Reuse(doc),
            None => SourcePlanView::Fetch,
        }
    }
}

/// What comes of a source that was fetched: the record to store and publish,
/// or the error of the fetch.
pub open spec fn completed(
    candidate: SearchCandidateView,
    fetched: Result<Seq<char>, FetchError>,
    enabled: bool,
    reply: Result<Seq<char>, SummaryError>,
    now: u64,
) -> Result<CachedDocumentView, FetchError> {
    match fetched {
        Ok(content) => Ok(
            written(
                candidate.url,
                candidate.snippet,
                content,
                summary_of(content, enabled, reply),
                now,
            ),
        ),
        Err(e) => Err(e),
    }
}

/// The view of an outcome.
pub open spec fn outcome_view(outcome: Result<CachedDocument, FetchError>) -> Result<
    CachedDocumentView,
    FetchError,
> {
    match outcome {
        Ok(d) => Ok(d@),
        Err(e) => Err(e),
    }
}

/// The results of one research call, in the order of the candidates. The
/// caller shares it between the workers that publish into it and the readers
/// that watch the progress.
pub struct ResultStore {
    results: Vec<SourceResult>,
}

impl View for ResultStore {
    type V = Seq<SourceResultView>;

    closed spec fn view(&self) -> Seq<SourceResultView> {
        result_views(self.results@)
    }
}

impl ResultStore {
    /// A store without results.
    pub fn new() -> (r: Self)
        ensures
            r@ == Seq::<SourceResultView>::empty(),
    {
        let r = ResultStore { results: Vec::new() };
        proof {
            assert(r@ =~= Seq::<SourceResultView>::empty());
        }
        r
    }

    /// How many results the store holds.
    pub fn len(&self) -> (r: usize)
        ensures
            r == self@.len(),
    {
        self.results.len()
    }

    /// Removes every result.
    pub fn clear(&mut self)
        ensures
            final(self)@ == Seq::<SourceResultView>::empty(),
    {
        self.results.clear();
        proof {
            assert(self@ =~= Seq::<SourceResultView>::empty());
        }
    }

    /// Adds one empty result for each candidate, in their order.
    pub fn seed(&mut self, candidates: &Vec<SearchCandidate>)
        ensures
            final(self)@ == old(self)@ + seeded_all(candidate_views(candidates@)),
    {
        let mut i: usize = 0;
        while i < candidates.len()
            invariant
                i <= candidates.len(),
                self@ == old(self)@ + seeded_all(candidate_views(candidates@)).take(i as int),
            decreases candidates.len() - i,
        {
            let ghost before = self@;
            let c = &candidates[i];
            let entry = SourceResult {
                url: c.url.clone(),
                snippet: c.snippet.clone(),
                content: String::new(),
                summary: String::new(),
            };
            proof {
                assert(entry@ == seeded(c@));
            }
            self.results.push(entry);
            proof {
                assert(self@ == before.push(seeded(candidates@[i as int]@)));
            }
            i += 1;
        }
        proof {
            let all = seeded_all(candidate_views(candidates@));
            assert(all.take(i as int) == all);
        }
    }

    /// Publishes what `doc` holds of its source: fills the first result for
    /// its URL. Says whether there was one.
    pub fn publish(&mut self, doc: &CachedDocument) -> (found: bool)
        ensures
            final(self)@ == published(old(self)@, doc@),
            found == (first_with_url(old(self)@, doc@.url) < old(self)@.len()),
    {
        let target = chars_of(doc.url.as_str());
        let mut i: usize = 0;
        while i < self.results.len()
            invariant
                i <= self.results.len(),
                self.results == old(self).results,
                target@ == doc@.url,
                forall|j: int| 0 <= j < i ==> self@[j].url != doc@.url,
            decreases self.results.len() - i,
        {
            let here = chars_of(self.results[i].url.as_str());
            if equals(&here, &target) {
                let ghost before = self@;
                let entry = SourceResult {
                    url: self.results[i].url.clone(),
                    snippet: doc.snippet.clone(),
                    content: doc.document.clone(),
                    summary: doc.summary.clone(),
                };
                proof {
                    lemma_first_with_url(before, doc@.url, i as int);
                    assert(entry@ == filled(before[i as int], doc@));
                }
                self.results.set(i, entry);
                proof {
                    assert(self@ == before.update(i as int, filled(before[i as int], doc@)));
                }
                return true;
            }
            i += 1;
        }
        proof {
            lemma_first_with_url(self@, doc@.url, i as int);
        }
        false
    }

    /// A copy of the results as they stand.
    pub fn snapshot(&self) -> (r: Vec<SourceResult>)
        ensures
            result_views(r@) == self@,
    {
        let mut out: Vec<SourceResult> = Vec::new();
        let mut i: usize = 0;
        while i < self.results.len()
            invariant
                i <= self.results.len(),
                result_views(out@) == self@.take(i as int),
            decreases self.results.len() - i,
        {
            let ghost before = result_views(out@);
            out.push(self.results[i].clone());
            proof {
                assert(result_views(out@) == before.push(self@[i as int]));
            }
            i += 1;
        }
        proof {
            assert(self@.take(i as int) == self@);
        }
        out
    }
}

/// Why a research call gave no results at all.
#[derive(Clone, Copy, Debug, PartialEq, Eq, Structural)]
pub enum ResearchError {
    /// The search gave no result page.
    SearchUnavailable,
}

/// The progress of one research call through its candidates.
pub struct ResearchRun {
    candidates: Vec<SearchCandidate>,
    limit: usize,
    next: usize,
}

impl ResearchRun {
    #[verifier::type_invariant]
    spec fn well_formed(&self) -> bool {
        self.next <= work_length(self.candidates@.len(), self.limit as nat)
    }

    /// The candidates of the call.
    pub closed spec fn candidates(&self) -> Seq<SearchCandidateView> {
        candidate_views(self.candidates@)
    }

    /// The most sources that the call works on.
    pub closed spec fn limit(&self) -> nat {
        self.limit as nat
    }

    /// How many sources were handed out.
    pub closed spec fn position(&self) -> nat {
        self.next as nat
    }

    /// How many sources the call works on.
    pub open spec fn work(&self) -> nat {
        work_length(self.candidates().len(), self.limit())
    }

    /// The run over `candidates` that works on at most `max_results` of them.
    pub fn new(candidates: Vec<SearchCandidate>, max_results: usize) -> (r: Self)
        ensures
            r.candidates() == candidate_views(candidates@),
            r.limit() == max_results,
            r.position() == 0,
    {
        ResearchRun { candidates, limit: max_results, next: 0 }
    }

    /// Whether every source was handed out.
    pub fn is_done(&self) -> (r: bool)
        ensures
            r == (self.position() == self.work()),
            self.position() <= self.work(),
    {
        proof {
            use_type_invariant(self);
        }
        let work = if self.candidates.len() <= self.limit {
            self.candidates.len()
        } else {
            self.limit
        };
        self.next == work
    }

    /// Hands out the next batch: the next `BATCH_SIZE` sources in the order of
    /// the candidates, or those that are left, which is none when the run is
    /// done.
    pub fn next_batch(&mut self) -> (batch: Vec<SearchCandidate>)
        ensures
            final(self).candidates() == old(self).candidates(),
            final(self).limit() == old(self).limit(),
            final(self).position() == batch_end(old(self).position(), old(self).work()),
            old(self).position() <= final(self).position() <= old(self).work(),
            candidate_views(batch@) == old(self).candidates().subrange(
                old(self).position() as int,
                final(self).position() as int,
            ),
            batch@.len() <= BATCH_SIZE,
            batch@.len() == 0 <==> old(self).position() == old(self).work(),
    {
        proof {
            use_type_invariant(&*self);
        }
        let work = if self.candidates.len() <= self.limit {
            self.candidates.len()
        } else {
            self.limit
        };
        let start = self.next;
        let end = if work - start >= BATCH_SIZE {
            start + BATCH_SIZE
        } else {
            work
        };
        let mut batch: Vec<SearchCandidate> = Vec::new();
        let mut i: usize = start;
        while i < end
            invariant
                start <= i <= end <= self.candidates.len(),
                candidate_views(batch@) == candidate_views(self.candidates@).subrange(
                    start as int,
                    i as int,
                ),
            decreases end - i,
        {
            let ghost before = candidate_views(batch@);
            batch.push(self.candidates[i].clone());
            proof {
                assert(candidate_views(batch@) == before.push(self.candidates@[i as int]@));
            }
            i += 1;
        }
        self.next = end;
        batch
    }
}

/// Starts a research call with what the search yielded. The store is
/// emptied. Where the search failed it stays empty, and the failure is
/// handed on as `SearchUnavailable`, apart from a search that found nothing.
/// Else the store gets one empty result for each candidate, in their order,
/// and the run over the candidates is returned.
pub fn begin(
    store: &mut ResultStore,
    found: Result<Vec<SearchCandidate>, SearchError>,
    max_results: usize,
) -> (r: Result<ResearchRun, ResearchError>)
    ensures
        match found {
            Ok(candidates) => {
                &&& final(store)@ == seeded_all(candidate_views(candidates@))
                &&& r matches Ok(run)
                &&& run.candidates() == candidate_views(candidates@)
                &&& run.limit() == max_results
                &&& run.position() == 0
            },
            Err(_) => {
                &&& final(store)@ == Seq::<SourceResultView>::empty()
                &&& r matches Err(e)
                &&& e == ResearchError::SearchUnavailable
            },
        },
{
    store.clear();
    match found {
        Ok(candidates) => {
            store.seed(&candidates);
            Ok(ResearchRun::new(candidates, max_results))
        },
        Err(_) => Err(ResearchError::SearchUnavailable),
    }
}

/// Decides what is done for the source at `url`, given what the file of its
/// cache key held (`None` where it is missing or cannot be read) and the
/// time. An address that is no URL is rejected; a fresh record is reused;
/// else the page is fetched.
pub fn plan_source(url: &str, stored: Option<CachedDocument>, now: u64) -> (r: SourcePlan)
    ensures
        r@ == plan_for(url_parses(url@), document_view(stored), now),
{
    if !parses_as_url(url) {
        SourcePlan::Reject(FetchError::InvalidUrl)
    } else {
        match read(stored, now) {
            Some(doc) => SourcePlan::Reuse(doc),
            None => SourcePlan::Fetch,
        }
    }
}

/// What comes of a source that was fetched at `now`: the record to store
/// and to publish, with the summary that `reply` gives under `enabled`, or
/// the error of the fetch.
pub fn complete_source(
    candidate: &SearchCandidate,
    fetched: &Result<String, FetchError>,
    enabled: bool,
    reply: &Result<String, SummaryError>,
    now: u64,
) -> (r: Result<CachedDocument, FetchError>)
    ensures
        outcome_view(r) == completed(
            candidate@,
            content_view(*fetched),
            enabled,
            reply_view(*reply),
            now,
        ),
{
    match fetched {
        Ok(content) => {
            let summary = summarize(content.as_str(), enabled, reply);
            Ok(
                crate::cache::write(
                    candidate.url.as_str(),
                    candidate.snippet.as_str(),
                    content.as_str(),
                    summary.as_str(),
                    now,
                ),
            )
        },
        Err(e) => Err(*e),
    }
}

/// Settles the outcome for one source: a document is published, a failure
/// leaves the store as it was.
pub fn settle(store: &mut ResultStore, outcome: &Result<CachedDocument, FetchError>)
    ensures
        final(store)@ == settled(old(store)@, outcome_view(*outcome)),
{
    match outcome {
        Ok(doc) => {
            store.publish(doc);
        },
        Err(_) => {},
    }
}

/// The first result for a URL is where no earlier result is for it.
pub proof fn lemma_first_with_url(results: Seq<SourceResultView>, url: Seq<char>, i: int)
    requires
        0 <= i <= results.len(),
        forall|j: int| 0 <= j < i ==> results[j].url != url,
        i < results.len() ==> results[i].url == url,
    ensures
        first_with_url(results, url) == i,
    decreases results.len(),
{
    if results.len() > 0 && i > 0 {
        let rest = results.skip(1);
        assert forall|j: int| 0 <= j < i - 1 implies rest[j].url != url by {
            assert(rest[j] == results[j + 1]);
        }
        lemma_first_with_url(rest, url, i - 1);
    }
}

/// The first result for a URL is for that URL, and no earlier one is.
pub proof fn lemma_first_with_url_is_first(results: Seq<SourceResultView>, url: Seq<char>)
    ensures
        0 <= first_with_url(results, url) <= results.len(),
        first_with_url(results, url) < results.len() ==> results[first_with_url(results, url)].url
            == url,
        forall|j: int| 0 <= j < first_with_url(results, url) ==> results[j].url != url,
    decreases results.len(),
{
    if results.len() > 0 && results[0].url != url {
        let rest = results.skip(1);
        lemma_first_with_url_is_first(rest, url);
        assert forall|j: int| 0 <= j < first_with_url(results, url) implies results[j].url
            != url by {
            if j > 0 {
                assert(rest[j - 1] == results[j]);
            }
        }
    }
}

/// Publishing keeps the listing: as many results as before, each for the URL
/// it was for, and every result for another URL than the document's exactly
/// as it was.
pub proof fn lemma_publish_is_isolated(results: Seq<SourceResultView>, doc: CachedDocumentView)
    ensures
        published(results, doc).len() == results.len(),
        forall|j: int|
            0 <= j < results.len() ==> (#[trigger] published(results, doc)[j]).url
                == results[j].url,
        forall|j: int|
            0 <= j < results.len() && results[j].url != doc.url ==> #[trigger] published(
                results,
                doc,
            )[j] == results[j],
{
    lemma_first_with_url_is_first(results, doc.url);
}

/// A source that fails leaves every result as it was, and a source that
/// succeeds leaves the results for all other URLs as they were: no outcome
/// for one source degrades another.
pub proof fn lemma_failure_is_isolated(
    results: Seq<SourceResultView>,
    outcome: Result<CachedDocumentView, FetchError>,
    url: Seq<char>,
)
    requires
        outcome matches Ok(doc) ==> doc.url == url,
    ensures
        settled(results, outcome).len() == results.len(),
        outcome is Err ==> settled(results, outcome) == results,
        forall|j: int|
            0 <= j < results.len() && results[j].url != url ==> #[trigger] settled(
                results,
                outcome,
            )[j] == results[j],
{
    match outcome {
        Ok(doc) => {
            lemma_publish_is_isolated(results, doc);
        },
        Err(_) => {},
    }
}

/// Whatever outcomes were settled so far, in whatever order, the store
/// holds one result for each candidate, in the order of the candidates and
/// for the URL of its candidate: a snapshot taken at any time lists every
/// source, filled or not.
pub proof fn lemma_store_keeps_listing(
    candidates: Seq<SearchCandidateView>,
    outcomes: Seq<Result<CachedDocumentView, FetchError>>,
)
    ensures
        settled_all(seeded_all(candidates), outcomes).len() == candidates.len(),
        forall|j: int|
            0 <= j < candidates.len() ==> (#[trigger] settled_all(
                seeded_all(candidates),
                outcomes,
            )[j]).url == candidates[j].url,
    decreases outcomes.len(),
{
    if outcomes.len() > 0 {
        let before = settled_all(seeded_all(candidates), outcomes.drop_last());
        lemma_store_keeps_listing(candidates, outcomes.drop_last());
        match outcomes.last() {
            Ok(doc) => {
                lemma_publish_is_isolated(before, doc);
            },
            Err(_) => {},
        }
    }
}

/// Publishing a document a second time changes nothing.
pub proof fn lemma_publish_is_idempotent(results: Seq<SourceResultView>, doc: CachedDocumentView)
    ensures
        published(published(results, doc), doc) == published(results, doc),
{
    let at = first_with_url(results, doc.url);
    lemma_first_with_url_is_first(results, doc.url);
    if at < results.len() {
        let once = published(results, doc);
        assert forall|j: int| 0 <= j < at implies once[j].url != doc.url by {}
        lemma_first_with_url(once, doc.url, at);
        assert(published(once, doc) =~= once);
    }
}

/// After a document was published, the first result for its URL holds the
/// document's content and summary.
pub proof fn lemma_published_holds_document(
    results: Seq<SourceResultView>,
    doc: CachedDocumentView,
)
    requires
        first_with_url(results, doc.url) < results.len(),
    ensures
        published(results, doc)[first_with_url(results, doc.url)].content == doc.document,
        published(results, doc)[first_with_url(results, doc.url)].summary == doc.summary,
        published(results, doc)[first_with_url(results, doc.url)].url == doc.url,
{
    lemma_first_with_url_is_first(results, doc.url);
}

/// While a record is fresh, its source is not fetched again: whatever the
/// address, the plan for a URL whose record was written less than the window
/// ago is not to fetch, and for an address that is a URL it is to reuse that
/// very record, content and summary included.
pub proof fn lemma_fresh_record_is_reused(
    store: Map<Seq<char>, CachedDocumentView>,
    valid: bool,
    url: Seq<char>,
    snippet: Seq<char>,
    content: Seq<char>,
    summary: Seq<char>,
    written_at: u64,
    now: u64,
)
    requires
        fresh_at(written_at, now),
    ensures
        !(plan_for(
            valid,
            stored_for(
                store_after_write(store, written(url, snippet, content, summary, written_at)),
                url,
            ),
            now,
        ) is Fetch),
        valid ==> plan_for(
            valid,
            stored_for(
                store_after_write(store, written(url, snippet, content, summary, written_at)),
                url,
            ),
            now,
        ) == SourcePlanView::Reuse(written(url, snippet, content, summary, written_at)),
{
}

/// A record whose age has reached the window is passed over: the page is
/// fetched again, and the write that follows replaces the record.
pub proof fn lemma_stale_record_is_replaced(
    store: Map<Seq<char>, CachedDocumentView>,
    url: Seq<char>,
    snippet: Seq<char>,
    content: Seq<char>,
    summary: Seq<char>,
    now: u64,
)
    requires
        stored_for(store, url) matches Some(old) && now - old.timestamp >= FRESHNESS_WINDOW_SECS,
    ensures
        plan_for(true, stored_for(store, url), now) is Fetch,
        stored_for(store_after_write(store, written(url, snippet, content, summary, now)), url)
            == Some(written(url, snippet, content, summary, now)),
{
}

/// The batches of a run follow one another without a gap, none is larger
/// than `BATCH_SIZE`, and all but the last are full.
pub proof fn lemma_batches_partition(start: nat, work: nat)
    requires
        start <= work,
    ensures
        start <= batch_end(start, work) <= work,
        batch_end(start, work) - start <= BATCH_SIZE,
        batch_end(start, work) < work ==> batch_end(start, work) - start == BATCH_SIZE,
        start < work ==> start < batch_end(start, work),
{
}

} // verus!
