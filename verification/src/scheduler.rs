//! The decisions of the run-loop: which feeds are due, how many crawls may run at
//! once, which feeds are being crawled right now, and when the loop may end.
//!
//! The scheduler never waits and never fetches. Its caller runs the loop: on each turn
//! it asks [`Scheduler::pass`] for the crawls to start, fetches and parses their
//! documents, and hands each result to [`Scheduler::finish`], which says which crawls
//! to start in the slot that became free.
//!
//! A pass takes up every feed that is due. As many crawls start as slots are free; the
//! other feeds wait in a queue, in the order in which they were taken up, and each
//! starts as soon as a running crawl ends.

use crate::crawl::CrawlReport;
use crate::document::Document;
use crate::error::{Error, ErrorView, PipelineError, SubjectView};
use crate::model::{lemma_deep_view_push, lemma_deep_view_remove, result_view, Feed, FeedView};
use crate::store::Store;
use crate::store_view::{clash_free, lemma_filter_clash_free, lemma_filter_member};
use vstd::prelude::*;

verus! {

/// Whether a feed is due at time `now`: it was never attempted, or at least `interval`
/// seconds have passed since the last attempt.
pub open spec fn due(feed: FeedView, now: u64, interval: u64) -> bool {
    match feed.last_crawl {
        None => true,
        Some(attempt) => now - attempt.at >= interval,
    }
}

/// The feeds that a pass at time `now` takes up: those that are due and that the
/// scheduler does not hold yet, running or waiting.
pub open spec fn eligible(held: Seq<u32>, now: u64, interval: u64) -> spec_fn(FeedView) -> bool {
    |feed: FeedView| due(feed, now, interval) && !held.contains(feed.id)
}

/// The id of a feed.
pub open spec fn feed_id_of() -> spec_fn(FeedView) -> u32 {
    |feed: FeedView| feed.id
}

/// The ids of a list of feeds, in order.
pub open spec fn ids_of(feeds: Seq<FeedView>) -> Seq<u32> {
    feeds.map_values(feed_id_of())
}

/// Whether no two of `feeds` have the same id.
pub open spec fn ids_distinct(feeds: Seq<FeedView>) -> bool {
    forall|i: int, j: int|
        #![trigger feeds[i], feeds[j]]
        0 <= i < j < feeds.len() ==> feeds[i].id != feeds[j].id
}

/// `ids` without `id`, which occurs in it at most once.
pub open spec fn without_id(ids: Seq<u32>, id: u32) -> Seq<u32> {
    if ids.contains(id) {
        ids.remove(ids.index_of(id))
    } else {
        ids
    }
}

/// What a scheduler holds.
pub struct SchedulerView {
    /// The polling interval, in seconds.
    pub interval: u64,
    /// The pause between two scheduling passes, in seconds.
    pub tick: u64,
    /// How many crawls may run at once; at least one.
    pub limit: usize,
    /// The ids of the feeds that are being crawled, in the order in which their crawls
    /// started.
    pub in_flight: Seq<u32>,
    /// The feeds that wait for a free slot, in the order in which passes took them up.
    pub queued: Seq<FeedView>,
    /// Whether shutdown was requested.
    pub stopping: bool,
}

impl SchedulerView {
    /// The ids of the feeds that the scheduler holds: those in flight, then those that
    /// wait.
    pub open spec fn held(self) -> Seq<u32> {
        self.in_flight + ids_of(self.queued)
    }

    /// A crawl can run, no more crawls run than may, no feed is held twice, and
    /// nothing waits once shutdown was requested.
    pub open spec fn sound(self) -> bool {
        &&& self.limit >= 1
        &&& self.in_flight.len() <= self.limit
        &&& self.held().no_duplicates()
        &&& self.stopping ==> self.queued.len() == 0
    }

    /// The scheduler is sound, and no feed waits while a slot is free.
    pub open spec fn wf(self) -> bool {
        &&& self.sound()
        &&& self.queued.len() > 0 ==> self.in_flight.len() == self.limit
    }

    /// How many more crawls may start.
    pub open spec fn free(self) -> int {
        self.limit - self.in_flight.len()
    }

    /// The feeds that a pass at time `now` takes up, in store order: every feed that is
    /// due and not held yet.
    pub open spec fn candidates(self, feeds: Seq<FeedView>, now: u64) -> Seq<FeedView> {
        feeds.filter(eligible(self.held(), now, self.interval))
    }

    /// The scheduler after a pass at time `now` took up its candidates: they wait
    /// behind the feeds that waited before. Once shutdown was requested nothing is
    /// taken up.
    pub open spec fn enqueued(self, feeds: Seq<FeedView>, now: u64) -> SchedulerView {
        if self.stopping {
            self
        } else {
            SchedulerView { queued: self.queued + self.candidates(feeds, now), ..self }
        }
    }

    /// How many of the waiting feeds can start now.
    pub open spec fn room(self) -> int {
        if self.queued.len() <= self.free() {
            self.queued.len() as int
        } else {
            self.free()
        }
    }

    /// The feeds whose crawls start now: those that waited longest, as many as slots
    /// are free.
    pub open spec fn starting(self) -> Seq<FeedView> {
        self.queued.take(self.room())
    }

    /// The scheduler after those crawls started: they are in flight and wait no more.
    pub open spec fn started(self) -> SchedulerView {
        SchedulerView {
            in_flight: self.in_flight + ids_of(self.starting()),
            queued: self.queued.skip(self.room()),
            ..self
        }
    }

    /// The scheduler after a pass at time `now`: the candidates were taken up, and
    /// crawls started as far as slots were free.
    pub open spec fn dispatched(self, feeds: Seq<FeedView>, now: u64) -> SchedulerView {
        self.enqueued(feeds, now).started()
    }

    /// The scheduler after the crawl of a feed ended: the feed is not in flight.
    pub open spec fn completed(self, feed_id: u32) -> SchedulerView {
        SchedulerView { in_flight: without_id(self.in_flight, feed_id), ..self }
    }

    /// The scheduler after the crawl of a feed ended and the slot was filled again from
    /// the queue.
    pub open spec fn released(self, feed_id: u32) -> SchedulerView {
        self.completed(feed_id).started()
    }

    /// The scheduler after the crawls of `ended` ended one after the other, each slot
    /// filled again from the queue.
    pub open spec fn released_each(self, ended: Seq<u32>) -> SchedulerView
        decreases ended.len(),
    {
        if ended.len() == 0 {
            self
        } else {
            self.released_each(ended.drop_last()).released(ended.last())
        }
    }

    /// Whether the run-loop may end: shutdown was requested and no crawl is running.
    pub open spec fn finished(self) -> bool {
        self.stopping && self.in_flight.len() == 0
    }

    /// The scheduler after the hosting process was asked whether it wants the loop to
    /// end, and answered `stop`. A request to stop is never taken back, and it empties
    /// the queue: no crawl starts after it.
    pub open spec fn asked(self, stop: bool) -> SchedulerView {
        if self.stopping || stop {
            SchedulerView { stopping: true, queued: Seq::empty(), ..self }
        } else {
            self
        }
    }

    /// A pass takes up only feeds that are due and not held, each once.
    pub proof fn lemma_candidates(self, feeds: Seq<FeedView>, now: u64)
        requires
            ids_distinct(feeds),
        ensures
            ids_distinct(self.candidates(feeds, now)),
            forall|k: int|
                0 <= k < self.candidates(feeds, now).len() ==> {
                    let feed = #[trigger] self.candidates(feeds, now)[k];
                    &&& feeds.contains(feed)
                    &&& due(feed, now, self.interval)
                    &&& !self.held().contains(feed.id)
                },
    {
        let keep = eligible(self.held(), now, self.interval);
        let taken = self.candidates(feeds, now);
        let clash = |a: FeedView, b: FeedView| a.id == b.id;
        assert(clash_free(feeds, clash));
        lemma_filter_clash_free(feeds, keep, clash);
        assert forall|i: int, j: int| 0 <= i < j < taken.len() implies taken[i].id
            != taken[j].id by {
            assert(!clash(taken[i], taken[j]));
        }
        assert forall|k: int| 0 <= k < taken.len() implies {
            let feed = #[trigger] taken[k];
            &&& feeds.contains(feed)
            &&& due(feed, now, self.interval)
            &&& !self.held().contains(feed.id)
        } by {
            lemma_filter_member(feeds, keep, k);
        }
    }

    /// Taking up the candidates of a pass keeps the scheduler sound.
    pub proof fn lemma_enqueued(self, feeds: Seq<FeedView>, now: u64)
        requires
            self.sound(),
            ids_distinct(feeds),
        ensures
            self.enqueued(feeds, now).sound(),
    {
        if !self.stopping {
            self.lemma_candidates(feeds, now);
            let taken = self.candidates(feeds, now);
            let before = self.held();
            let after = self.enqueued(feeds, now).held();
            let n = before.len() as int;
            assert(after =~= before + ids_of(taken));
            assert forall|i: int, j: int|
                0 <= i < after.len() && 0 <= j < after.len() && i != j implies after[i]
                != after[j] by {
                if i >= n {
                    assert(after[i] == taken[i - n].id);
                } else {
                    assert(before.contains(before[i]));
                }
                if j >= n {
                    assert(after[j] == taken[j - n].id);
                } else {
                    assert(before.contains(before[j]));
                }
                if i >= n && j >= n {
                    if i < j {
                        assert(taken[i - n].id != taken[j - n].id);
                    } else {
                        assert(taken[j - n].id != taken[i - n].id);
                    }
                }
            }
        }
    }

    /// Starting the crawls for which there is room makes a sound scheduler consistent:
    /// it holds the same feeds as before, and no feed waits while a slot is free.
    pub proof fn lemma_started(self)
        requires
            self.sound(),
        ensures
            self.started().wf(),
            self.started().held() == self.held(),
    {
        let r = self.room();
        assert(ids_of(self.queued.take(r)) + ids_of(self.queued.skip(r)) =~= ids_of(self.queued));
        assert(self.started().held() =~= self.held());
    }

    /// Ending a crawl keeps the scheduler sound and takes just that feed out of flight.
    pub proof fn lemma_completed(self, feed_id: u32)
        requires
            self.sound(),
        ensures
            self.completed(feed_id).sound(),
            !self.completed(feed_id).in_flight.contains(feed_id),
            self.in_flight.contains(feed_id) ==> self.completed(feed_id).in_flight.len()
                == self.in_flight.len() - 1,
            forall|other: u32|
                other != feed_id ==> (#[trigger] self.completed(feed_id).in_flight.contains(other)
                    <==> self.in_flight.contains(other)),
    {
        let before = self.in_flight;
        let after = self.completed(feed_id).in_flight;
        if before.contains(feed_id) {
            let at = before.index_of(feed_id);
            let held = self.held();
            assert(self.completed(feed_id).held() =~= held.remove(at));
            assert forall|i: int, j: int|
                0 <= i < held.remove(at).len() && 0 <= j < held.remove(at).len() && i
                    != j implies held.remove(at)[i] != held.remove(at)[j] by {
                let a = if i < at { i } else { i + 1 };
                let b = if j < at { j } else { j + 1 };
                assert(held.remove(at)[i] == held[a] && held.remove(at)[j] == held[b]);
            }
            assert forall|i: int| 0 <= i < after.len() implies #[trigger] after[i] != feed_id by {
                let a = if i < at { i } else { i + 1 };
                assert(after[i] == held[a] && held[at] == feed_id);
            }
            assert forall|other: u32| other != feed_id implies (#[trigger] after.contains(other)
                <==> before.contains(other)) by {
                if before.contains(other) {
                    let k = choose|k: int| 0 <= k < before.len() && before[k] == other;
                    if k < at {
                        assert(after[k] == other);
                    } else {
                        assert(after[k - 1] == other);
                    }
                }
            }
        }
    }
}

/// A pass leaves no due feed out: every feed that is due and was not held before is
/// held after the pass, its crawl started or waiting for the next free slot, and no
/// feed waits while a slot is free. With room for all of them, all their crawls start
/// in the pass itself.
pub proof fn law_pass_takes_up_every_due_feed(
    scheduler: SchedulerView,
    feeds: Seq<FeedView>,
    now: u64,
)
    requires
        scheduler.wf(),
        ids_distinct(feeds),
        !scheduler.stopping,
    ensures
        scheduler.dispatched(feeds, now).wf(),
        forall|k: int|
            0 <= k < feeds.len() && due(#[trigger] feeds[k], now, scheduler.interval)
                ==> scheduler.dispatched(feeds, now).held().contains(feeds[k].id),
        scheduler.dispatched(feeds, now).starting().len() == 0,
        scheduler.queued.len() + scheduler.candidates(feeds, now).len() <= scheduler.free()
            ==> scheduler.dispatched(feeds, now).queued.len() == 0,
        scheduler.dispatched(feeds, now).queued.len() > 0 ==> scheduler.dispatched(
            feeds,
            now,
        ).in_flight.len() == scheduler.limit,
{
    let keep = eligible(scheduler.held(), now, scheduler.interval);
    let taken = scheduler.candidates(feeds, now);
    let enqueued = scheduler.enqueued(feeds, now);
    let after = scheduler.dispatched(feeds, now);
    scheduler.lemma_enqueued(feeds, now);
    enqueued.lemma_started();
    assert(enqueued.held() =~= scheduler.held() + ids_of(taken));
    assert forall|k: int|
        0 <= k < feeds.len() && due(#[trigger] feeds[k], now, scheduler.interval) implies after.held().contains(
        feeds[k].id,
    ) by {
        let held = scheduler.held();
        if held.contains(feeds[k].id) {
            let i = choose|i: int| 0 <= i < held.len() && held[i] == feeds[k].id;
            assert(enqueued.held()[i] == feeds[k].id);
        } else {
            assert(keep(feeds[k]));
            feeds.lemma_filter_contains(keep, k);
            let j = choose|j: int| 0 <= j < taken.len() && taken[j] == feeds[k];
            assert(enqueued.held()[held.len() + j] == feeds[k].id);
        }
    }
}

/// Whether the crawls of `ended` can end one after the other: each of them is in flight
/// when it ends.
pub open spec fn can_end(scheduler: SchedulerView, ended: Seq<u32>) -> bool {
    forall|i: int|
        0 <= i < ended.len() ==> scheduler.released_each(ended.take(i)).in_flight.contains(
            #[trigger] ended[i],
        )
}

/// The end of a running crawl starts the crawl of the feed that waited longest, and
/// that crawl only: the slot is taken again at once, and the feeds behind move up.
pub proof fn law_a_free_slot_starts_the_next(scheduler: SchedulerView, ended: u32)
    requires
        scheduler.wf(),
        scheduler.queued.len() > 0,
        scheduler.in_flight.contains(ended),
    ensures
        scheduler.completed(ended).starting() == seq![scheduler.queued[0]],
        scheduler.released(ended).wf(),
        scheduler.released(ended).queued == scheduler.queued.skip(1),
        scheduler.released(ended).in_flight.contains(scheduler.queued[0].id),
        scheduler.released(ended).in_flight.len() == scheduler.limit,
{
    scheduler.lemma_completed(ended);
    let freed = scheduler.completed(ended);
    freed.lemma_started();
    assert(freed.room() == 1);
    assert(freed.starting() =~= seq![scheduler.queued[0]]);
    let after = scheduler.released(ended);
    assert(after.in_flight[freed.in_flight.len() as int] == scheduler.queued[0].id);
}

/// As long as feeds wait, every crawl that ends starts one of them: after as many
/// crawls ended as `ended` names, that many feeds have left the queue, those first
/// that waited longest, and the scheduler is consistent.
pub proof fn lemma_queue_moves_up(scheduler: SchedulerView, ended: Seq<u32>)
    requires
        scheduler.wf(),
        ended.len() <= scheduler.queued.len(),
        can_end(scheduler, ended),
    ensures
        scheduler.released_each(ended).wf(),
        scheduler.released_each(ended).queued == scheduler.queued.skip(ended.len() as int),
    decreases ended.len(),
{
    if ended.len() == 0 {
        assert(scheduler.queued.skip(0) =~= scheduler.queued);
    } else {
        let earlier = ended.drop_last();
        let n = earlier.len() as int;
        assert(can_end(scheduler, earlier)) by {
            assert forall|i: int| 0 <= i < earlier.len() implies scheduler.released_each(
                earlier.take(i),
            ).in_flight.contains(#[trigger] earlier[i]) by {
                assert(earlier.take(i) =~= ended.take(i));
                assert(earlier[i] == ended[i]);
            }
        }
        lemma_queue_moves_up(scheduler, earlier);
        let before = scheduler.released_each(earlier);
        assert(ended.take(n) =~= earlier);
        assert(before.in_flight.contains(ended[n]));
        assert(before.queued[0] == scheduler.queued[n]);
        law_a_free_slot_starts_the_next(before, ended.last());
        assert(scheduler.queued.skip(n).skip(1) =~= scheduler.queued.skip(n + 1));
    }
}

/// Every feed that waits is started, in the order of the queue, as the running crawls
/// end: where the crawls of `ended` end one after the other, the end of the crawl
/// `ended[k]` starts the crawl of the feed that was `k`-th in the queue, and that crawl
/// only. So a queue of `n` feeds is empty after `n` crawls ended, whatever their
/// results were.
#[verifier::spinoff_prover]
pub proof fn law_every_waiting_feed_is_started(
    scheduler: SchedulerView,
    ended: Seq<u32>,
    k: int,
)
    requires
        scheduler.wf(),
        0 <= k < ended.len(),
        k < scheduler.queued.len(),
        can_end(scheduler, ended.take(k + 1)),
    ensures
        scheduler.released_each(ended.take(k)).completed(ended[k]).starting()
            == seq![scheduler.queued[k]],
        scheduler.released_each(ended.take(k + 1)).in_flight.contains(scheduler.queued[k].id),
        scheduler.released_each(ended.take(k + 1)).queued == scheduler.queued.skip(k + 1),
        scheduler.released_each(ended.take(k + 1)).wf(),
{
    let upto = ended.take(k + 1);
    let earlier = ended.take(k);
    assert(upto.drop_last() =~= earlier);
    assert(upto.last() == ended[k]);
    assert(upto.take(k) =~= earlier);
    assert(can_end(scheduler, earlier)) by {
        assert forall|i: int| 0 <= i < earlier.len() implies scheduler.released_each(
            earlier.take(i),
        ).in_flight.contains(#[trigger] earlier[i]) by {
            assert(earlier.take(i) =~= upto.take(i));
            assert(earlier[i] == upto[i]);
        }
    }
    lemma_queue_moves_up(scheduler, earlier);
    let before = scheduler.released_each(earlier);
    assert(before.in_flight.contains(upto[k]));
    assert(before.queued[0] == scheduler.queued[k]);
    law_a_free_slot_starts_the_next(before, ended[k]);
    assert(scheduler.queued.skip(k).skip(1) =~= scheduler.queued.skip(k + 1));
}

/// Every feed that a pass takes up is started: in the pass itself where a slot is free
/// for it, and else by the end of a running crawl, as soon as the feeds before it in
/// the queue were started. Where `p` is the place of the feed in the queue that the
/// pass made, `r` crawls start in the pass, and the crawls of `ended` end one after the
/// other afterwards, the feed is among those `r`, or the end of the crawl
/// `ended[p - r]` starts it.
pub proof fn law_every_candidate_of_a_pass_is_started(
    scheduler: SchedulerView,
    feeds: Seq<FeedView>,
    now: u64,
    j: int,
    ended: Seq<u32>,
)
    requires
        scheduler.wf(),
        ids_distinct(feeds),
        !scheduler.stopping,
        0 <= j < scheduler.candidates(feeds, now).len(),
        ({
            let p = scheduler.queued.len() + j;
            let r = scheduler.enqueued(feeds, now).room();
            p >= r ==> p - r < ended.len() && can_end(
                scheduler.dispatched(feeds, now),
                ended.take(p - r + 1),
            )
        }),
    ensures
        ({
            let feed = scheduler.candidates(feeds, now)[j];
            let p = scheduler.queued.len() + j;
            let r = scheduler.enqueued(feeds, now).room();
            let after = scheduler.dispatched(feeds, now);
            if p < r {
                &&& scheduler.enqueued(feeds, now).starting()[p] == feed
                &&& after.in_flight.contains(feed.id)
            } else {
                &&& after.queued[p - r] == feed
                &&& after.released_each(ended.take(p - r)).completed(ended[p - r]).starting()
                    == seq![feed]
                &&& after.released_each(ended.take(p - r + 1)).in_flight.contains(feed.id)
            }
        }),
{
    let feed = scheduler.candidates(feeds, now)[j];
    let p = scheduler.queued.len() + j;
    let enqueued = scheduler.enqueued(feeds, now);
    let r = enqueued.room();
    let after = scheduler.dispatched(feeds, now);
    scheduler.lemma_enqueued(feeds, now);
    enqueued.lemma_started();
    assert(enqueued.queued[p] == feed);
    if p < r {
        assert(ids_of(enqueued.starting())[p] == feed.id);
        assert(after.in_flight[scheduler.in_flight.len() + p] == feed.id);
    } else {
        assert(after.queued[p - r] == feed);
        law_every_waiting_feed_is_started(after, ended, p - r);
    }
}

/// The end of one crawl, whatever its result, leaves the other crawls as they were:
/// the feed itself is held no more, every other feed that was in flight is still in
/// flight, every other feed that waited is still held, and the scheduler stays
/// consistent.
pub proof fn law_end_of_a_crawl_spares_the_others(scheduler: SchedulerView, ended: u32)
    requires
        scheduler.wf(),
    ensures
        scheduler.released(ended).wf(),
        scheduler.in_flight.contains(ended) ==> !scheduler.released(ended).held().contains(ended),
        forall|other: u32|
            other != ended && scheduler.held().contains(other) ==> #[trigger] scheduler.released(
                ended,
            ).held().contains(other),
        forall|other: u32|
            other != ended && scheduler.in_flight.contains(other) ==> #[trigger] scheduler.released(
                ended,
            ).in_flight.contains(other),
{
    scheduler.lemma_completed(ended);
    let freed = scheduler.completed(ended);
    freed.lemma_started();
    let after = scheduler.released(ended);
    assert forall|other: u32|
        other != ended && scheduler.in_flight.contains(other) implies #[trigger] after.in_flight.contains(
        other,
    ) by {
        assert(freed.in_flight.contains(other));
        let i = choose|i: int| 0 <= i < freed.in_flight.len() && freed.in_flight[i] == other;
        assert(after.in_flight[i] == other);
    }
    assert forall|other: u32|
        other != ended && scheduler.held().contains(other) implies #[trigger] after.held().contains(
        other,
    ) by {
        let held = scheduler.held();
        let i = choose|i: int| 0 <= i < held.len() && held[i] == other;
        let n = scheduler.in_flight.len() as int;
        if i < n {
            assert(scheduler.in_flight[i] == other);
            assert(scheduler.in_flight.contains(other));
            assert(freed.in_flight.contains(other));
            let j = choose|j: int| 0 <= j < freed.in_flight.len() && freed.in_flight[j] == other;
            assert(freed.held()[j] == other);
        } else {
            assert(freed.held()[freed.in_flight.len() + (i - n)] == other);
        }
    }
    if scheduler.in_flight.contains(ended) && after.held().contains(ended) {
        let running = scheduler.in_flight;
        let at = running.index_of(ended);
        let held = freed.held();
        let i = choose|i: int| 0 <= i < held.len() && held[i] == ended;
        if i < freed.in_flight.len() {
            assert(freed.in_flight[i] == ended);
            assert(freed.in_flight.contains(ended));
        } else {
            let q = i - freed.in_flight.len();
            assert(ids_of(scheduler.queued)[q] == ended);
            assert(scheduler.held()[running.len() + q] == ended);
            assert(scheduler.held()[at] == ended);
        }
    }
}

/// What the run-loop does after a scheduling pass.
#[derive(Debug, PartialEq, Eq)]
pub enum Pass {
    /// It starts a crawl for each of `feeds`, idles for `pause` seconds and comes back
    /// for the next pass.
    Crawl { feeds: Vec<Feed>, pause: u64 },
    /// It ends.
    Finished,
}

/// What the end of a crawl brought.
#[derive(Debug, PartialEq, Eq)]
pub struct Ended {
    /// What the crawl did to the store.
    pub report: Result<CrawlReport, Error>,
    /// The feeds whose crawls start in the slot that became free.
    pub next: Vec<Feed>,
}

/// The scheduler of a run-loop.
pub struct Scheduler {
    interval: u64,
    tick: u64,
    limit: usize,
    in_flight: Vec<u32>,
    queued: Vec<Feed>,
    stopping: bool,
}

impl View for Scheduler {
    type V = SchedulerView;

    closed spec fn view(&self) -> SchedulerView {
        SchedulerView {
            interval: self.interval,
            tick: self.tick,
            limit: self.limit,
            in_flight: self.in_flight@,
            queued: self.queued.deep_view(),
            stopping: self.stopping,
        }
    }
}

/// Tells whether a feed is due at time `now` under a polling interval.
pub fn is_due(feed: &Feed, now: u64, interval: u64) -> (yes: bool)
    ensures
        yes == due(feed@, now, interval),
{
    match feed.last_crawl {
        None => true,
        Some(attempt) => now >= attempt.at && now - attempt.at >= interval,
    }
}

impl Scheduler {
    /// The scheduler is consistent.
    pub open spec fn wf(&self) -> bool {
        self@.wf()
    }

    /// A scheduler that holds nothing: feeds are polled every `interval` seconds,
    /// passes are `tick` seconds apart, and at most `limit` crawls run at once. There
    /// is no scheduler without a slot for a crawl.
    pub fn new(interval: u64, tick: u64, limit: usize) -> (scheduler: Option<Scheduler>)
        ensures
            match scheduler {
                Some(scheduler) => {
                    &&& limit >= 1
                    &&& scheduler.wf()
                    &&& scheduler@ == (SchedulerView {
                        interval,
                        tick,
                        limit,
                        in_flight: Seq::empty(),
                        queued: Seq::empty(),
                        stopping: false,
                    })
                },
                None => limit == 0,
            },
    {
        if limit == 0 {
            return None;
        }
        let scheduler = Scheduler {
            interval,
            tick,
            limit,
            in_flight: Vec::new(),
            queued: Vec::new(),
            stopping: false,
        };
        assert(scheduler@.queued =~= Seq::empty());
        assert(scheduler@.held() =~= Seq::empty());
        Some(scheduler)
    }

    /// The pause between two scheduling passes, in seconds.
    pub fn tick(&self) -> (tick: u64)
        ensures
            tick == self@.tick,
    {
        self.tick
    }

    /// Whether a feed is being crawled.
    pub fn is_in_flight(&self, feed_id: u32) -> (yes: bool)
        ensures
            yes == self@.in_flight.contains(feed_id),
    {
        self.position(feed_id).is_some()
    }

    /// Whether a feed waits for a free slot.
    pub fn is_queued(&self, feed_id: u32) -> (yes: bool)
        ensures
            yes == ids_of(self@.queued).contains(feed_id),
    {
        let mut i: usize = 0;
        while i < self.queued.len()
            invariant
                i <= self.queued.len(),
                forall|k: int| 0 <= k < i ==> ids_of(self@.queued)[k] != feed_id,
            decreases self.queued.len() - i,
        {
            if self.queued[i].id == feed_id {
                assert(ids_of(self@.queued)[i as int] == feed_id);
                return true;
            }
            i += 1;
        }
        false
    }

    fn is_held(&self, feed_id: u32) -> (yes: bool)
        ensures
            yes == self@.held().contains(feed_id),
    {
        let running = self.is_in_flight(feed_id);
        let waiting = self.is_queued(feed_id);
        proof {
            let held = self@.held();
            let n = self@.in_flight.len() as int;
            if running {
                let i = choose|i: int| 0 <= i < n && self@.in_flight[i] == feed_id;
                assert(held[i] == feed_id);
            }
            if waiting {
                let i = choose|i: int|
                    0 <= i < self@.queued.len() && ids_of(self@.queued)[i] == feed_id;
                assert(held[n + i] == feed_id);
            }
            if held.contains(feed_id) {
                let i = choose|i: int| 0 <= i < held.len() && held[i] == feed_id;
                if i < n {
                    assert(self@.in_flight[i] == feed_id);
                } else {
                    assert(ids_of(self@.queued)[i - n] == feed_id);
                }
            }
        }
        running || waiting
    }

    fn position(&self, feed_id: u32) -> (r: Option<usize>)
        ensures
            match r {
                Some(i) => i < self.in_flight.len() && self.in_flight@[i as int] == feed_id,
                None => !self.in_flight@.contains(feed_id),
            },
    {
        let mut i: usize = 0;
        while i < self.in_flight.len()
            invariant
                i <= self.in_flight.len(),
                forall|k: int| 0 <= k < i ==> self.in_flight@[k] != feed_id,
            decreases self.in_flight.len() - i,
        {
            if self.in_flight[i] == feed_id {
                return Some(i);
            }
            i += 1;
        }
        None
    }

    /// How many crawls are running.
    pub fn running(&self) -> (count: usize)
        ensures
            count == self@.in_flight.len(),
    {
        self.in_flight.len()
    }

    /// How many feeds wait for a free slot.
    pub fn waiting(&self) -> (count: usize)
        ensures
            count == self@.queued.len(),
    {
        self.queued.len()
    }

    /// Asks the run-loop to end: the feeds that wait are let go, and from now on no
    /// crawl starts. Crawls that are running may still finish.
    pub fn request_shutdown(&mut self)
        requires
            old(self).wf(),
        ensures
            final(self).wf(),
            final(self)@ == old(self)@.asked(true),
    {
        self.stopping = true;
        self.queued = Vec::new();
        proof {
            assert(self@.queued =~= Seq::empty());
            assert(self@.held() =~= old(self)@.in_flight);
            assert forall|i: int, j: int|
                0 <= i < self@.held().len() && 0 <= j < self@.held().len() && i
                    != j implies self@.held()[i] != self@.held()[j] by {
                assert(old(self)@.held()[i] == self@.held()[i]);
                assert(old(self)@.held()[j] == self@.held()[j]);
            }
        }
    }

    /// Whether the run-loop may end: shutdown was requested and no crawl is running.
    pub fn is_finished(&self) -> (yes: bool)
        ensures
            yes == self@.finished(),
    {
        self.stopping && self.in_flight.len() == 0
    }

    /// Starts the crawls for which there is room, those first that waited longest.
    fn start(&mut self) -> (feeds: Vec<Feed>)
        requires
            old(self)@.sound(),
        ensures
            final(self).wf(),
            feeds.deep_view() == old(self)@.starting(),
            final(self)@ == old(self)@.started(),
    {
        let ghost before = self@;
        let mut feeds: Vec<Feed> = Vec::new();
        proof {
            before.lemma_started();
        }
        while self.in_flight.len() < self.limit && self.queued.len() > 0
            invariant
                before.sound(),
                feeds.len() <= before.room(),
                feeds.deep_view() == before.queued.take(feeds.len() as int),
                self@.queued == before.queued.skip(feeds.len() as int),
                self@.in_flight == before.in_flight + ids_of(
                    before.queued.take(feeds.len() as int),
                ),
                self.interval == before.interval,
                self.tick == before.tick,
                self.limit == before.limit,
                self.stopping == before.stopping,
            decreases self.queued.len(),
        {
            let ghost waiting = self.queued;
            let ghost started = feeds;
            let ghost k = feeds.len() as int;
            let feed = self.queued.remove(0);
            proof {
                lemma_deep_view_remove(waiting, self.queued, 0);
                assert(before.queued.skip(k).remove(0) =~= before.queued.skip(k + 1));
                assert(waiting.deep_view()[0] == feed@);
                assert(before.queued.skip(k)[0] == before.queued[k]);
            }
            self.in_flight.push(feed.id);
            feeds.push(feed);
            proof {
                lemma_deep_view_push(started, feeds, feed);
                assert(before.queued.take(k + 1) =~= before.queued.take(k).push(before.queued[k]));
                assert(ids_of(before.queued.take(k + 1)) =~= ids_of(before.queued.take(k)).push(
                    before.queued[k].id,
                ));
            }
        }
        proof {
            assert(feeds.len() == before.room());
        }
        feeds
    }

    /// One scheduling pass at time `now`: takes up every feed that is due and not held
    /// yet, in store order, behind the feeds that wait already, and starts as many
    /// crawls as slots are free. The caller fetches the document of each feed returned
    /// and hands the result to [`Scheduler::finish`], which starts the crawls of the
    /// feeds that had to wait.
    ///
    /// Once shutdown was requested nothing is taken up and nothing starts.
    pub fn dispatch(&mut self, store: &Store, now: u64) -> (feeds: Vec<Feed>)
        requires
            old(self).wf(),
            store.wf(),
        ensures
            final(self).wf(),
            feeds.deep_view() == old(self)@.enqueued(store@.feeds, now).starting(),
            final(self)@ == old(self)@.dispatched(store@.feeds, now),
    {
        let ghost keep = eligible(self@.held(), now, self@.interval);
        let ghost views = store@.feeds;
        proof {
            assert(ids_distinct(views));
            self@.lemma_enqueued(views, now);
        }
        if !self.stopping {
            let all = store.feeds();
            let mut taken: Vec<Feed> = Vec::new();
            let mut i: usize = 0;
            proof {
                reveal(Seq::filter);
                assert(views.take(0).filter(keep) =~= Seq::empty());
            }
            while i < all.len()
                invariant
                    i <= all.len(),
                    all.deep_view() == views,
                    keep == eligible(self@.held(), now, self@.interval),
                    taken.deep_view() == views.take(i as int).filter(keep),
                decreases all.len() - i,
            {
                proof {
                    assert(views.take(i + 1) =~= views.take(i as int).push(views[i as int]));
                    views.take(i as int).lemma_filter_push(views[i as int], keep);
                }
                if is_due(&all[i], now, self.interval) && !self.is_held(all[i].id) {
                    let ghost before = taken;
                    let feed = all[i].clone();
                    taken.push(feed);
                    proof {
                        lemma_deep_view_push(before, taken, feed);
                    }
                }
                i += 1;
            }
            proof {
                assert(views.take(i as int) =~= views);
            }
            let ghost waiting = self.queued;
            let ghost fresh = taken;
            self.queued.append(&mut taken);
            proof {
                assert(self.queued.deep_view() =~= waiting.deep_view() + fresh.deep_view());
            }
        }
        self.start()
    }

    /// One turn of the run-loop at time `now`. `stop` says whether the hosting process
    /// has asked the loop to end.
    ///
    /// The loop ends once it was asked to and no crawl is running. Until then every turn
    /// is a scheduling pass, as [`Scheduler::dispatch`] makes it, followed by a pause of
    /// one tick; after a request to stop nothing waits and nothing starts, and the
    /// turns only wait for the running crawls.
    pub fn pass(&mut self, store: &Store, now: u64, stop: bool) -> (next: Pass)
        requires
            old(self).wf(),
            store.wf(),
        ensures
            final(self).wf(),
            ({
                let asked = old(self)@.asked(stop);
                if asked.finished() {
                    &&& next == Pass::Finished
                    &&& final(self)@ == asked
                } else {
                    &&& next matches Pass::Crawl { feeds, pause }
                    &&& feeds.deep_view() == asked.enqueued(store@.feeds, now).starting()
                    &&& pause == asked.tick
                    &&& final(self)@ == asked.dispatched(store@.feeds, now)
                }
            }),
    {
        if stop || self.stopping {
            self.request_shutdown();
        }
        if self.is_finished() {
            return Pass::Finished;
        }
        let feeds = self.dispatch(store, now);
        Pass::Crawl { feeds, pause: self.tick }
    }

    /// Takes a feed out of flight and starts the crawls for which there is room now.
    /// Returns the feeds whose crawls start. A feed that is not in flight frees no
    /// slot.
    pub fn release(&mut self, feed_id: u32) -> (next: Vec<Feed>)
        requires
            old(self).wf(),
        ensures
            final(self).wf(),
            next.deep_view() == old(self)@.completed(feed_id).starting(),
            final(self)@ == old(self)@.released(feed_id),
    {
        proof {
            self@.lemma_completed(feed_id);
        }
        match self.position(feed_id) {
            Some(i) => {
                proof {
                    let running = self@.in_flight;
                    let at = running.index_of(feed_id);
                    assert(running[at] == feed_id);
                    assert(self@.held()[at] == feed_id && self@.held()[i as int] == feed_id);
                }
                self.in_flight.remove(i);
            },
            None => {},
        }
        assert(self@ == old(self)@.completed(feed_id));
        self.start()
    }

    /// Ends the crawl of a feed at time `now`, given what the fetch-parse pipeline made
    /// of its address: the crawl is carried out on the store as [`Store::crawl`] does.
    /// Whatever the crawl's result is, the feed is taken out of flight and the crawl of
    /// the feed that waited longest starts in its slot, so that a failing feed neither
    /// stops the loop nor holds up the feeds behind it.
    pub fn finish(
        &mut self,
        store: &mut Store,
        feed_id: u32,
        outcome: Result<Document, PipelineError>,
        now: u64,
    ) -> (ended: Ended)
        requires
            old(self).wf(),
            old(store).wf(),
        ensures
            final(self).wf(),
            final(store).wf(),
            final(self)@ == old(self)@.released(feed_id),
            ended.next.deep_view() == old(self)@.completed(feed_id).starting(),
            match ended.report {
                Ok(report) => {
                    &&& old(store)@.has_feed(feed_id)
                    &&& final(store)@ == old(store)@.crawled(feed_id, result_view(outcome), now)
                    &&& report@ == old(store)@.crawl_report(feed_id, result_view(outcome), now)
                },
                Err(e) => {
                    &&& !old(store)@.has_feed(feed_id)
                    &&& final(store)@ == old(store)@
                    &&& e@ == ErrorView::NotFound(SubjectView::Feed(feed_id))
                },
            },
    {
        let next = self.release(feed_id);
        let report = store.crawl(feed_id, outcome, now);
        Ended { report, next }
    }
}

} // verus!
