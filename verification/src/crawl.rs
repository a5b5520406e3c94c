//! The crawl pipeline: one update cycle of one feed. The document is fetched and
//! parsed, its entries are compared with the stored ones, the new ones are stored, and
//! the attempt is recorded against the feed, whether it succeeded or not.

use crate::document::{identity, Document, DocumentView};
use crate::error::{
    Error, ErrorView, FetchFailureView, PipelineError, PipelineErrorView, SubjectView,
};
use crate::model::{result_view, Attempt, CrawlStatus};
use crate::store::Store;
use crate::store_view::{
    absorb, has_key, keys_unique, lemma_absorb, lemma_absorb_covers, lemma_absorb_known,
    StoreView,
};
use vstd::prelude::*;

verus! {

/// What one crawl of a feed did.
#[derive(Debug, PartialEq, Eq)]
pub struct CrawlReport {
    pub feed_id: u32,
    /// How many entries the crawl stored.
    pub new_entries: usize,
    /// Why the crawl stored nothing, where the pipeline failed.
    pub failure: Option<PipelineError>,
}

/// The report of a crawl, with its texts as sequences of characters.
pub struct CrawlReportView {
    pub feed_id: u32,
    pub new_entries: nat,
    pub failure: Option<PipelineErrorView>,
}

impl View for CrawlReport {
    type V = CrawlReportView;

    open spec fn view(&self) -> CrawlReportView {
        CrawlReportView {
            feed_id: self.feed_id,
            new_entries: self.new_entries as nat,
            failure: match self.failure {
                Some(error) => Some(error@),
                None => None,
            },
        }
    }
}

/// How a crawl ends whose pipeline ended with `failure`, or with a document.
pub open spec fn status_of(failure: Option<PipelineErrorView>) -> CrawlStatus {
    match failure {
        None => CrawlStatus::Succeeded,
        Some(PipelineErrorView::Fetch(_)) => CrawlStatus::FetchFailed,
        Some(PipelineErrorView::Parse(_)) => CrawlStatus::ParseFailed,
    }
}

/// The failure of a pipeline result, if it is one.
pub open spec fn failure_of(outcome: Result<DocumentView, PipelineErrorView>) -> Option<
    PipelineErrorView,
> {
    match outcome {
        Ok(_) => None,
        Err(error) => Some(error),
    }
}

impl CrawlReportView {
    /// How the crawl ended.
    pub open spec fn status(self) -> CrawlStatus {
        status_of(self.failure)
    }
}

impl CrawlReport {
    /// How the crawl ended.
    pub fn status(&self) -> (status: CrawlStatus)
        ensures
            status == self@.status(),
    {
        match &self.failure {
            None => CrawlStatus::Succeeded,
            Some(PipelineError::Fetch(_)) => CrawlStatus::FetchFailed,
            Some(PipelineError::Parse(_)) => CrawlStatus::ParseFailed,
        }
    }
}

impl StoreView {
    /// The store after feed `feed_id` was crawled at time `now` and the pipeline ended
    /// with `outcome`: the entries of a document are taken in, a failure stores
    /// nothing, and either way the attempt is recorded against the feed.
    pub open spec fn crawled(
        self,
        feed_id: u32,
        outcome: Result<DocumentView, PipelineErrorView>,
        now: u64,
    ) -> StoreView {
        let taken = match outcome {
            Ok(document) => self.with_entries(feed_id, document.entries),
            Err(_) => self,
        };
        taken.with_attempt(feed_id, Attempt { at: now, status: status_of(failure_of(outcome)) })
    }

    /// What the crawl of feed `feed_id` reports whose pipeline ended with `outcome`.
    pub open spec fn crawl_report(
        self,
        feed_id: u32,
        outcome: Result<DocumentView, PipelineErrorView>,
        now: u64,
    ) -> CrawlReportView {
        CrawlReportView {
            feed_id,
            new_entries: (self.crawled(feed_id, outcome, now).entries.len()
                - self.entries.len()) as nat,
            failure: failure_of(outcome),
        }
    }

    /// The store after feed `feed_id` was crawled once for each of `outcomes`, in
    /// order, each time at `now`.
    pub open spec fn crawled_each(
        self,
        feed_id: u32,
        outcomes: Seq<Result<DocumentView, PipelineErrorView>>,
        now: u64,
    ) -> StoreView
        decreases outcomes.len(),
    {
        if outcomes.len() == 0 {
            self
        } else {
            self.crawled_each(feed_id, outcomes.drop_last(), now).crawled(
                feed_id,
                outcomes.last(),
                now,
            )
        }
    }

    /// Recording an attempt against a feed changes that feed's bookkeeping and nothing
    /// else: every feed is found where it was.
    pub proof fn lemma_attempt_lookup(self, feed_id: u32, attempt: Attempt, other: u32)
        requires
            self.wf(),
            self.has_feed(feed_id),
            self.has_feed(other),
        ensures
            self.with_attempt(feed_id, attempt).has_feed(other),
            self.with_attempt(feed_id, attempt).feed_index(other) == self.feed_index(other),
            other != feed_id ==> self.with_attempt(feed_id, attempt).feed(other) == self.feed(
                other,
            ),
            self.with_attempt(feed_id, attempt).feed(feed_id).last_crawl == Some(attempt),
    {
        let after = self.with_attempt(feed_id, attempt);
        self.lemma_with_attempt(feed_id, attempt);
        after.lemma_feed_position(self.feed_index(other));
        after.lemma_feed_position(self.feed_index(feed_id));
    }

    /// A crawl of a feed that exists keeps the store consistent, and so the identity
    /// of every entry unique.
    pub proof fn lemma_crawled(
        self,
        feed_id: u32,
        outcome: Result<DocumentView, PipelineErrorView>,
        now: u64,
    )
        requires
            self.wf(),
            self.has_feed(feed_id),
        ensures
            self.crawled(feed_id, outcome, now).wf(),
            self.crawled(feed_id, outcome, now).has_feed(feed_id),
            self.entries.is_prefix_of(self.crawled(feed_id, outcome, now).entries),
            self.crawled(feed_id, outcome, now).groups == self.groups,
            self.crawled(feed_id, outcome, now).links == self.links,
    {
        let attempt = Attempt { at: now, status: status_of(failure_of(outcome)) };
        match outcome {
            Ok(document) => {
                self.lemma_with_entries(feed_id, document.entries);
                lemma_absorb(self.entries, feed_id, document.entries);
                let taken = self.with_entries(feed_id, document.entries);
                taken.lemma_with_attempt(feed_id, attempt);
                taken.lemma_attempt_lookup(feed_id, attempt, feed_id);
            },
            Err(_) => {
                self.lemma_with_attempt(feed_id, attempt);
                self.lemma_attempt_lookup(feed_id, attempt, feed_id);
            },
        }
    }
}

/// Crawling a feed a second time, with the document unchanged, stores nothing: the
/// second crawl reports zero new entries and leaves the stored entries as the first
/// crawl left them.
pub proof fn law_second_crawl_stores_nothing(
    store: StoreView,
    feed_id: u32,
    outcome: Result<DocumentView, PipelineErrorView>,
    first: u64,
    second: u64,
)
    ensures
        store.crawled(feed_id, outcome, first).crawl_report(feed_id, outcome, second).new_entries
            == 0,
        store.crawled(feed_id, outcome, first).crawled(feed_id, outcome, second).entries
            == store.crawled(feed_id, outcome, first).entries,
{
    match outcome {
        Ok(document) => {
            let raw = document.entries;
            let once = absorb(store.entries, feed_id, raw);
            assert forall|i: int|
                0 <= i < raw.len() && identity(#[trigger] raw[i]) is Some implies has_key(
                once,
                feed_id,
                identity(raw[i])->0,
            ) by {
                lemma_absorb_covers(store.entries, feed_id, raw, i);
            }
            lemma_absorb_known(once, feed_id, raw);
        },
        Err(_) => {},
    }
}

/// However often a feed is crawled, and whatever the documents hold, no entry is
/// stored twice: the store stays consistent, so the pair of feed and external id
/// stays unique, and every entry that was stored before is still there, unchanged and
/// in its place.
pub proof fn law_crawls_never_duplicate(
    store: StoreView,
    feed_id: u32,
    outcomes: Seq<Result<DocumentView, PipelineErrorView>>,
    now: u64,
)
    requires
        store.wf(),
        store.has_feed(feed_id),
    ensures
        store.crawled_each(feed_id, outcomes, now).wf(),
        store.crawled_each(feed_id, outcomes, now).has_feed(feed_id),
        keys_unique(store.crawled_each(feed_id, outcomes, now).entries),
        store.entries.is_prefix_of(store.crawled_each(feed_id, outcomes, now).entries),
    decreases outcomes.len(),
{
    if outcomes.len() > 0 {
        law_crawls_never_duplicate(store, feed_id, outcomes.drop_last(), now);
        let before = store.crawled_each(feed_id, outcomes.drop_last(), now);
        before.lemma_crawled(feed_id, outcomes.last(), now);
    }
}

/// A crawl whose fetch failed does not get in the way of the other feeds: it stores no
/// entry and still records the attempt against its own feed, and a sibling feed is
/// crawled afterwards exactly as it would have been without it.
pub proof fn law_failed_fetch_spares_siblings(
    store: StoreView,
    failed: u32,
    failure: FetchFailureView,
    sibling: u32,
    outcome: Result<DocumentView, PipelineErrorView>,
    now: u64,
    later: u64,
)
    requires
        store.wf(),
        store.has_feed(failed),
        store.has_feed(sibling),
        failed != sibling,
    ensures
        ({
            let after = store.crawled(failed, Err(PipelineErrorView::Fetch(failure)), now);
            &&& after.entries == store.entries
            &&& after.feed(failed).last_crawl == Some(
                Attempt { at: now, status: CrawlStatus::FetchFailed },
            )
            &&& after.has_feed(sibling)
            &&& after.feed(sibling) == store.feed(sibling)
            &&& after.crawl_report(sibling, outcome, later) == store.crawl_report(
                sibling,
                outcome,
                later,
            )
            &&& after.crawled(sibling, outcome, later).entries == store.crawled(
                sibling,
                outcome,
                later,
            ).entries
            &&& after.crawled(sibling, outcome, later).feed(sibling) == store.crawled(
                sibling,
                outcome,
                later,
            ).feed(sibling)
        }),
{
    let attempt = Attempt { at: now, status: CrawlStatus::FetchFailed };
    let after = store.crawled(failed, Err(PipelineErrorView::Fetch(failure)), now);
    store.lemma_attempt_lookup(failed, attempt, sibling);
    store.lemma_with_attempt(failed, attempt);
    let mark = Attempt { at: later, status: status_of(failure_of(outcome)) };
    match outcome {
        Ok(document) => {
            let a = after.with_entries(sibling, document.entries);
            let b = store.with_entries(sibling, document.entries);
            after.lemma_with_entries(sibling, document.entries);
            a.lemma_attempt_lookup(sibling, mark, sibling);
            b.lemma_attempt_lookup(sibling, mark, sibling);
        },
        Err(_) => {
            after.lemma_attempt_lookup(sibling, mark, sibling);
            store.lemma_attempt_lookup(sibling, mark, sibling);
        },
    }
}

impl Store {
    /// Crawls feed `feed_id` at time `now`, given what the fetch-parse pipeline made of
    /// the feed's address.
    ///
    /// A document's entries are taken in as [`Store::store_entries`] does; a failure
    /// stores nothing. Either way the attempt is recorded against the feed with the
    /// time `now`, and the report says how many entries were stored and why the
    /// pipeline failed, if it did. `NotFound` where no feed has this id; the store is
    /// then unchanged.
    pub fn crawl(
        &mut self,
        feed_id: u32,
        outcome: Result<Document, PipelineError>,
        now: u64,
    ) -> (r: Result<CrawlReport, Error>)
        requires
            old(self).wf(),
        ensures
            final(self).wf(),
            match r {
                Ok(report) => {
                    &&& old(self)@.has_feed(feed_id)
                    &&& final(self)@ == old(self)@.crawled(feed_id, result_view(outcome), now)
                    &&& report@ == old(self)@.crawl_report(feed_id, result_view(outcome), now)
                },
                Err(e) => {
                    &&& !old(self)@.has_feed(feed_id)
                    &&& final(self)@ == old(self)@
                    &&& e@ == ErrorView::NotFound(SubjectView::Feed(feed_id))
                },
            },
    {
        match outcome {
            Ok(document) => {
                let stored = match self.store_entries(feed_id, &document.entries) {
                    Ok(count) => count,
                    Err(e) => {
                        return Err(e);
                    },
                };
                let attempt = Attempt { at: now, status: CrawlStatus::Succeeded };
                match self.record_attempt(feed_id, attempt) {
                    Ok(_) => Ok(CrawlReport { feed_id, new_entries: stored, failure: None }),
                    Err(e) => Err(e),
                }
            },
            Err(error) => {
                let status = match &error {
                    PipelineError::Fetch(_) => CrawlStatus::FetchFailed,
                    PipelineError::Parse(_) => CrawlStatus::ParseFailed,
                };
                match self.record_attempt(feed_id, Attempt { at: now, status }) {
                    Ok(_) => Ok(CrawlReport { feed_id, new_entries: 0, failure: Some(error) }),
                    Err(e) => Err(e),
                }
            },
        }
    }
}

} // verus!
