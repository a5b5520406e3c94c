//! The store: the single source of truth for feeds, groups, their links and the entries
//! of each feed, with create, lookup, list and delete for each.

use crate::document::{entry_identity, RawEntry};
use crate::error::{Error, ErrorView, StoreFault, Subject, SubjectView};
use crate::model::{
    clone_text, lemma_deep_view_push, lemma_deep_view_remove, lemma_deep_view_update, Attempt,
    Entry, Feed, FeedGroup, Group, Membership,
};
use crate::snapshot::Snapshot;
use crate::store_view::{
    absorb, entry_inside, entry_outside, has_key, link_feed, link_inside_group,
    link_outside_feed, link_outside_group, StoreView,
};
use vstd::prelude::*;

verus! {

/// The links that do not refer to feed `feed_id`, in order.
fn links_outside_feed(links: &Vec<Membership>, feed_id: u32) -> (kept: Vec<Membership>)
    ensures
        kept@ == links@.filter(link_outside_feed(feed_id)),
{
    let mut kept: Vec<Membership> = Vec::new();
    let mut i: usize = 0;
    while i < links.len()
        invariant
            i <= links.len(),
            kept@ == links@.take(i as int).filter(link_outside_feed(feed_id)),
        decreases links.len() - i,
    {
        let link = links[i];
        proof {
            assert(links@.take(i + 1) =~= links@.take(i as int).push(link));
            links@.take(i as int).lemma_filter_push(link, link_outside_feed(feed_id));
        }
        if link.feed_id != feed_id {
            kept.push(link);
        }
        i += 1;
    }
    proof {
        assert(links@.take(i as int) =~= links@);
    }
    kept
}

/// The links that do not refer to group `group_id`, in order.
fn links_outside_group(links: &Vec<Membership>, group_id: u32) -> (kept: Vec<Membership>)
    ensures
        kept@ == links@.filter(link_outside_group(group_id)),
{
    let mut kept: Vec<Membership> = Vec::new();
    let mut i: usize = 0;
    while i < links.len()
        invariant
            i <= links.len(),
            kept@ == links@.take(i as int).filter(link_outside_group(group_id)),
        decreases links.len() - i,
    {
        let link = links[i];
        proof {
            assert(links@.take(i + 1) =~= links@.take(i as int).push(link));
            links@.take(i as int).lemma_filter_push(link, link_outside_group(group_id));
        }
        if link.group_id != group_id {
            kept.push(link);
        }
        i += 1;
    }
    proof {
        assert(links@.take(i as int) =~= links@);
    }
    kept
}

/// Copies of the entries for which `inside == (entry.feed_id == feed_id)`, in order.
fn entries_by_feed(entries: &Vec<Entry>, feed_id: u32, inside: bool) -> (kept: Vec<Entry>)
    ensures
        kept.deep_view() == entries.deep_view().filter(
            if inside {
                entry_inside(feed_id)
            } else {
                entry_outside(feed_id)
            },
        ),
{
    let ghost keep = if inside {
        entry_inside(feed_id)
    } else {
        entry_outside(feed_id)
    };
    let ghost views = entries.deep_view();
    let mut kept: Vec<Entry> = Vec::new();
    let mut i: usize = 0;
    while i < entries.len()
        invariant
            i <= entries.len(),
            views == entries.deep_view(),
            keep == if inside {
                entry_inside(feed_id)
            } else {
                entry_outside(feed_id)
            },
            kept.deep_view() == views.take(i as int).filter(keep),
        decreases entries.len() - i,
    {
        proof {
            assert(views.take(i + 1) =~= views.take(i as int).push(views[i as int]));
            views.take(i as int).lemma_filter_push(views[i as int], keep);
        }
        if (entries[i].feed_id == feed_id) == inside {
            let entry = entries[i].clone();
            kept.push(entry);
        }
        i += 1;
    }
    proof {
        assert(views.take(i as int) =~= views);
    }
    kept
}

/// Whether `entries` holds an entry of feed `feed_id` with the external id `key`.
fn holds_key(entries: &Vec<Entry>, feed_id: u32, key: &String) -> (found: bool)
    ensures
        found == has_key(entries.deep_view(), feed_id, key@),
{
    let mut i: usize = 0;
    while i < entries.len()
        invariant
            i <= entries.len(),
            forall|k: int|
                0 <= k < i ==> !((#[trigger] entries.deep_view()[k]).feed_id == feed_id
                    && entries.deep_view()[k].external_id == key@),
        decreases entries.len() - i,
    {
        if entries[i].feed_id == feed_id && entries[i].external_id == *key {
            assert(entries.deep_view()[i as int].feed_id == feed_id);
            return true;
        }
        i += 1;
    }
    false
}

/// An in-memory store. Every operation either applies as a whole or leaves the store as
/// it was.
pub struct Store {
    feeds: Vec<Feed>,
    groups: Vec<Group>,
    links: Vec<Membership>,
    entries: Vec<Entry>,
    next_feed_id: u32,
    next_group_id: u32,
}

impl View for Store {
    type V = StoreView;

    closed spec fn view(&self) -> StoreView {
        StoreView {
            feeds: self.feeds.deep_view(),
            groups: self.groups.deep_view(),
            links: self.links@,
            entries: self.entries.deep_view(),
            next_feed_id: self.next_feed_id,
            next_group_id: self.next_group_id,
        }
    }
}

impl Store {
    /// The store is consistent.
    pub open spec fn wf(&self) -> bool {
        self@.wf()
    }

    /// A store that holds nothing.
    pub fn new() -> (store: Store)
        ensures
            store@ == StoreView::empty(),
            store.wf(),
    {
        let store = Store {
            feeds: Vec::new(),
            groups: Vec::new(),
            links: Vec::new(),
            entries: Vec::new(),
            next_feed_id: 1,
            next_group_id: 1,
        };
        assert(store@.feeds =~= Seq::empty());
        assert(store@.groups =~= Seq::empty());
        assert(store@.entries =~= Seq::empty());
        store
    }

    /// The contents of the store, copied.
    pub fn snapshot(&self) -> (snapshot: Snapshot)
        ensures
            snapshot@ == self@,
    {
        let mut links: Vec<Membership> = Vec::new();
        let mut i: usize = 0;
        while i < self.links.len()
            invariant
                i <= self.links.len(),
                links@ == self.links@.take(i as int),
            decreases self.links.len() - i,
        {
            links.push(self.links[i]);
            i += 1;
        }
        proof {
            assert(self.links@.take(i as int) =~= self.links@);
        }
        let mut entries: Vec<Entry> = Vec::new();
        let mut k: usize = 0;
        while k < self.entries.len()
            invariant
                k <= self.entries.len(),
                entries.deep_view() == self@.entries.take(k as int),
            decreases self.entries.len() - k,
        {
            let ghost before = entries;
            let entry = self.entries[k].clone();
            entries.push(entry);
            proof {
                lemma_deep_view_push(before, entries, entry);
            }
            k += 1;
        }
        proof {
            assert(self@.entries.take(k as int) =~= self@.entries);
        }
        Snapshot {
            feeds: self.feeds(),
            groups: self.groups(),
            links,
            entries,
            next_feed_id: self.next_feed_id,
            next_group_id: self.next_group_id,
        }
    }

    /// The store with the contents of a snapshot, where these are consistent;
    /// `StoreError` where they break a constraint.
    pub fn restore(snapshot: Snapshot) -> (r: Result<Store, Error>)
        ensures
            match r {
                Ok(store) => snapshot@.wf() && store.wf() && store@ == snapshot@,
                Err(e) => !snapshot@.wf() && e@ == ErrorView::StoreError(
                    StoreFault::ConstraintViolated,
                ),
            },
    {
        if !snapshot.is_consistent() {
            return Err(Error::StoreError(StoreFault::ConstraintViolated));
        }
        Ok(
            Store {
                feeds: snapshot.feeds,
                groups: snapshot.groups,
                links: snapshot.links,
                entries: snapshot.entries,
                next_feed_id: snapshot.next_feed_id,
                next_group_id: snapshot.next_group_id,
            },
        )
    }

    fn find_feed(&self, id: u32) -> (r: Option<usize>)
        requires
            self.wf(),
        ensures
            match r {
                Some(i) => self@.has_feed(id) && i == self@.feed_index(id) && i < self.feeds.len()
                    && self.feeds[i as int].id == id,
                None => !self@.has_feed(id),
            },
    {
        let mut i: usize = 0;
        while i < self.feeds.len()
            invariant
                self.wf(),
                i <= self.feeds.len(),
                forall|j: int| 0 <= j < i ==> (#[trigger] self@.feeds[j]).id != id,
            decreases self.feeds.len() - i,
        {
            if self.feeds[i].id == id {
                proof {
                    self@.lemma_feed_position(i as int);
                }
                return Some(i);
            }
            i += 1;
        }
        None
    }

    fn find_url(&self, url: &String) -> (r: Option<usize>)
        requires
            self.wf(),
        ensures
            match r {
                Some(i) => self@.has_url(url@) && i == self@.url_index(url@) && i
                    < self.feeds.len() && self.feeds[i as int].url@ == url@,
                None => !self@.has_url(url@),
            },
    {
        let mut i: usize = 0;
        while i < self.feeds.len()
            invariant
                self.wf(),
                i <= self.feeds.len(),
                forall|j: int| 0 <= j < i ==> (#[trigger] self@.feeds[j]).url != url@,
            decreases self.feeds.len() - i,
        {
            if self.feeds[i].url == *url {
                proof {
                    self@.lemma_feed_position(i as int);
                }
                return Some(i);
            }
            i += 1;
        }
        None
    }

    /// Creates a feed. Its id is the next one of the store, and it has no crawl
    /// bookkeeping yet.
    ///
    /// Fails with `AlreadyExists` where a feed with this address exists, and with
    /// `StoreError` where no id is left; the store is then unchanged.
    pub fn create_feed(&mut self, title: String, url: String, link: String) -> (r: Result<
        Feed,
        Error,
    >)
        requires
            old(self).wf(),
        ensures
            final(self).wf(),
            match r {
                Ok(feed) => {
                    &&& !old(self)@.has_url(url@)
                    &&& old(self)@.next_feed_id < u32::MAX
                    &&& final(self)@ == old(self)@.with_feed(title@, url@, link@)
                    &&& feed@ == final(self)@.feeds.last()
                },
                Err(e) => {
                    &&& final(self)@ == old(self)@
                    &&& if old(self)@.has_url(url@) {
                        e@ == ErrorView::AlreadyExists(SubjectView::FeedUrl(url@))
                    } else {
                        &&& old(self)@.next_feed_id == u32::MAX
                        &&& e@ == ErrorView::StoreError(StoreFault::FeedIdsExhausted)
                    }
                },
            },
    {
        if self.find_url(&url).is_some() {
            return Err(Error::AlreadyExists(Subject::FeedUrl(url)));
        }
        if self.next_feed_id == u32::MAX {
            return Err(Error::StoreError(StoreFault::FeedIdsExhausted));
        }
        let feed = Feed { id: self.next_feed_id, title, url, link, last_crawl: None };
        let copy = feed.clone();
        proof {
            old(self)@.lemma_with_feed(title@, url@, link@);
        }
        self.feeds.push(feed);
        self.next_feed_id = self.next_feed_id + 1;
        assert(self@.feeds =~= old(self)@.feeds.push(copy@));
        Ok(copy)
    }

    /// The feed with this id; `NotFound` where there is none.
    pub fn feed(&self, id: u32) -> (r: Result<Feed, Error>)
        requires
            self.wf(),
        ensures
            match r {
                Ok(feed) => self@.has_feed(id) && feed@ == self@.feed(id),
                Err(e) => !self@.has_feed(id) && e@ == ErrorView::NotFound(SubjectView::Feed(id)),
            },
    {
        match self.find_feed(id) {
            Some(i) => Ok(self.feeds[i].clone()),
            None => Err(Error::NotFound(Subject::Feed(id))),
        }
    }

    /// The feed with this subscription address, if there is one.
    pub fn feed_by_url(&self, url: &String) -> (r: Option<Feed>)
        requires
            self.wf(),
        ensures
            match r {
                Some(feed) => self@.has_url(url@) && feed@ == self@.feed_at(url@),
                None => !self@.has_url(url@),
            },
    {
        match self.find_url(url) {
            Some(i) => Some(self.feeds[i].clone()),
            None => None,
        }
    }

    /// All feeds, in the order of their creation.
    pub fn feeds(&self) -> (all: Vec<Feed>)
        ensures
            all.deep_view() == self@.feeds,
    {
        let mut all: Vec<Feed> = Vec::new();
        let mut i: usize = 0;
        while i < self.feeds.len()
            invariant
                i <= self.feeds.len(),
                all.deep_view() == self@.feeds.take(i as int),
            decreases self.feeds.len() - i,
        {
            let ghost before = all;
            let feed = self.feeds[i].clone();
            all.push(feed);
            proof {
                lemma_deep_view_push(before, all, feed);
            }
            i += 1;
        }
        all
    }

    fn find_group(&self, id: u32) -> (r: Option<usize>)
        requires
            self.wf(),
        ensures
            match r {
                Some(i) => self@.has_group(id) && i == self@.group_index(id) && i
                    < self.groups.len() && self.groups[i as int].id == id,
                None => !self@.has_group(id),
            },
    {
        let mut i: usize = 0;
        while i < self.groups.len()
            invariant
                self.wf(),
                i <= self.groups.len(),
                forall|j: int| 0 <= j < i ==> (#[trigger] self@.groups[j]).id != id,
            decreases self.groups.len() - i,
        {
            if self.groups[i].id == id {
                proof {
                    self@.lemma_group_position(i as int);
                }
                return Some(i);
            }
            i += 1;
        }
        None
    }

    fn find_title(&self, title: &String) -> (r: Option<usize>)
        requires
            self.wf(),
        ensures
            match r {
                Some(i) => self@.has_title(title@) && i == self@.title_index(title@) && i
                    < self.groups.len() && self.groups[i as int].title@ == title@,
                None => !self@.has_title(title@),
            },
    {
        let mut i: usize = 0;
        while i < self.groups.len()
            invariant
                self.wf(),
                i <= self.groups.len(),
                forall|j: int| 0 <= j < i ==> (#[trigger] self@.groups[j]).title != title@,
            decreases self.groups.len() - i,
        {
            if self.groups[i].title == *title {
                proof {
                    self@.lemma_group_position(i as int);
                }
                return Some(i);
            }
            i += 1;
        }
        None
    }

    /// Deletes a feed together with its entries and its links to groups, and returns
    /// it. `NotFound` where no feed has this id; the store is then unchanged.
    pub fn delete_feed(&mut self, id: u32) -> (r: Result<Feed, Error>)
        requires
            old(self).wf(),
        ensures
            final(self).wf(),
            match r {
                Ok(feed) => {
                    &&& old(self)@.has_feed(id)
                    &&& feed@ == old(self)@.feed(id)
                    &&& final(self)@ == old(self)@.without_feed(id)
                },
                Err(e) => {
                    &&& !old(self)@.has_feed(id)
                    &&& final(self)@ == old(self)@
                    &&& e@ == ErrorView::NotFound(SubjectView::Feed(id))
                },
            },
    {
        match self.find_feed(id) {
            None => Err(Error::NotFound(Subject::Feed(id))),
            Some(i) => {
                let links = links_outside_feed(&self.links, id);
                let entries = entries_by_feed(&self.entries, id, false);
                let ghost before = self.feeds;
                let feed = self.feeds.remove(i);
                proof {
                    lemma_deep_view_remove(before, self.feeds, i as int);
                    old(self)@.lemma_without_feed(id);
                }
                self.links = links;
                self.entries = entries;
                Ok(feed)
            },
        }
    }

    /// Creates a group. Its id is the next one of the store.
    ///
    /// Fails with `AlreadyExists` where a group with this title exists, and with
    /// `StoreError` where no id is left; the store is then unchanged.
    pub fn create_group(&mut self, title: String) -> (r: Result<Group, Error>)
        requires
            old(self).wf(),
        ensures
            final(self).wf(),
            match r {
                Ok(group) => {
                    &&& !old(self)@.has_title(title@)
                    &&& old(self)@.next_group_id < u32::MAX
                    &&& final(self)@ == old(self)@.with_group(title@)
                    &&& group@ == final(self)@.groups.last()
                },
                Err(e) => {
                    &&& final(self)@ == old(self)@
                    &&& if old(self)@.has_title(title@) {
                        e@ == ErrorView::AlreadyExists(SubjectView::GroupTitle(title@))
                    } else {
                        &&& old(self)@.next_group_id == u32::MAX
                        &&& e@ == ErrorView::StoreError(StoreFault::GroupIdsExhausted)
                    }
                },
            },
    {
        if self.find_title(&title).is_some() {
            return Err(Error::AlreadyExists(Subject::GroupTitle(title)));
        }
        if self.next_group_id == u32::MAX {
            return Err(Error::StoreError(StoreFault::GroupIdsExhausted));
        }
        let group = Group { id: self.next_group_id, title };
        let copy = group.clone();
        proof {
            old(self)@.lemma_with_group(title@);
        }
        self.groups.push(group);
        self.next_group_id = self.next_group_id + 1;
        assert(self@.groups =~= old(self)@.groups.push(copy@));
        Ok(copy)
    }

    /// The group with this id; `NotFound` where there is none.
    pub fn group(&self, id: u32) -> (r: Result<Group, Error>)
        requires
            self.wf(),
        ensures
            match r {
                Ok(group) => self@.has_group(id) && group@ == self@.group(id),
                Err(e) => !self@.has_group(id) && e@ == ErrorView::NotFound(
                    SubjectView::Group(id),
                ),
            },
    {
        match self.find_group(id) {
            Some(i) => Ok(self.groups[i].clone()),
            None => Err(Error::NotFound(Subject::Group(id))),
        }
    }

    /// The group with this title, if there is one.
    pub fn group_by_title(&self, title: &String) -> (r: Option<Group>)
        requires
            self.wf(),
        ensures
            match r {
                Some(group) => self@.has_title(title@) && group@ == self@.group_titled(title@),
                None => !self@.has_title(title@),
            },
    {
        match self.find_title(title) {
            Some(i) => Some(self.groups[i].clone()),
            None => None,
        }
    }

    /// All groups, in the order of their creation.
    pub fn groups(&self) -> (all: Vec<Group>)
        ensures
            all.deep_view() == self@.groups,
    {
        let mut all: Vec<Group> = Vec::new();
        let mut i: usize = 0;
        while i < self.groups.len()
            invariant
                i <= self.groups.len(),
                all.deep_view() == self@.groups.take(i as int),
            decreases self.groups.len() - i,
        {
            let ghost before = all;
            let group = self.groups[i].clone();
            all.push(group);
            proof {
                lemma_deep_view_push(before, all, group);
            }
            i += 1;
        }
        all
    }

    /// Deletes a group together with its links, and returns it. Feeds and entries are
    /// not touched. `NotFound` where no group has this id; the store is then unchanged.
    pub fn delete_group(&mut self, id: u32) -> (r: Result<Group, Error>)
        requires
            old(self).wf(),
        ensures
            final(self).wf(),
            match r {
                Ok(group) => {
                    &&& old(self)@.has_group(id)
                    &&& group@ == old(self)@.group(id)
                    &&& final(self)@ == old(self)@.without_group(id)
                },
                Err(e) => {
                    &&& !old(self)@.has_group(id)
                    &&& final(self)@ == old(self)@
                    &&& e@ == ErrorView::NotFound(SubjectView::Group(id))
                },
            },
    {
        match self.find_group(id) {
            None => Err(Error::NotFound(Subject::Group(id))),
            Some(i) => {
                let links = links_outside_group(&self.links, id);
                let ghost before = self.groups;
                let group = self.groups.remove(i);
                proof {
                    lemma_deep_view_remove(before, self.groups, i as int);
                    old(self)@.lemma_without_group(id);
                }
                self.links = links;
                Ok(group)
            },
        }
    }

    /// Whether the feed is linked to the group.
    pub fn is_linked(&self, feed_id: u32, group_id: u32) -> (linked: bool)
        ensures
            linked == self@.linked(feed_id, group_id),
    {
        let link = Membership { feed_id, group_id };
        let mut i: usize = 0;
        while i < self.links.len()
            invariant
                i <= self.links.len(),
                link == (Membership { feed_id, group_id }),
                forall|k: int| 0 <= k < i ==> self.links@[k] != link,
            decreases self.links.len() - i,
        {
            let other = self.links[i];
            if other.feed_id == feed_id && other.group_id == group_id {
                return true;
            }
            i += 1;
        }
        false
    }

    /// Links a feed to a group. Returns whether the link is new: a link that exists is
    /// not made a second time.
    ///
    /// `NotFound` where the group or the feed does not exist (the group is looked up
    /// first); the store is then unchanged.
    pub fn link(&mut self, feed_id: u32, group_id: u32) -> (r: Result<bool, Error>)
        requires
            old(self).wf(),
        ensures
            final(self).wf(),
            match r {
                Ok(added) => {
                    &&& old(self)@.has_group(group_id)
                    &&& old(self)@.has_feed(feed_id)
                    &&& added == !old(self)@.linked(feed_id, group_id)
                    &&& final(self)@ == old(self)@.with_link(feed_id, group_id)
                },
                Err(e) => {
                    &&& final(self)@ == old(self)@
                    &&& if !old(self)@.has_group(group_id) {
                        e@ == ErrorView::NotFound(SubjectView::Group(group_id))
                    } else {
                        &&& !old(self)@.has_feed(feed_id)
                        &&& e@ == ErrorView::NotFound(SubjectView::Feed(feed_id))
                    }
                },
            },
    {
        if self.find_group(group_id).is_none() {
            return Err(Error::NotFound(Subject::Group(group_id)));
        }
        if self.find_feed(feed_id).is_none() {
            return Err(Error::NotFound(Subject::Feed(feed_id)));
        }
        if self.is_linked(feed_id, group_id) {
            return Ok(false);
        }
        self.links.push(Membership { feed_id, group_id });
        Ok(true)
    }

    /// The ids of the feeds that are linked to a group, in the order in which they were
    /// linked.
    pub fn members(&self, group_id: u32) -> (r: FeedGroup)
        ensures
            r.group_id == group_id,
            r.feed_ids@ == self@.members(group_id),
    {
        let ghost keep = link_inside_group(group_id);
        let mut feed_ids: Vec<u32> = Vec::new();
        let mut i: usize = 0;
        while i < self.links.len()
            invariant
                i <= self.links.len(),
                keep == link_inside_group(group_id),
                feed_ids@ == self.links@.take(i as int).filter(keep).map_values(link_feed()),
            decreases self.links.len() - i,
        {
            let link = self.links[i];
            proof {
                let seen = self.links@.take(i as int);
                assert(self.links@.take(i + 1) =~= seen.push(link));
                seen.lemma_filter_push(link, keep);
            }
            if link.group_id == group_id {
                feed_ids.push(link.feed_id);
            }
            i += 1;
        }
        proof {
            assert(self.links@.take(i as int) =~= self.links@);
        }
        FeedGroup { group_id, feed_ids }
    }

    /// The feeds that are linked to a group, in the order in which they were linked.
    pub fn feeds_in_group(&self, group_id: u32) -> (feeds: Vec<Feed>)
        requires
            self.wf(),
        ensures
            feeds.deep_view() == self@.feeds_in(group_id),
    {
        let members = self.members(group_id);
        let ghost ids = self@.members(group_id);
        let mut feeds: Vec<Feed> = Vec::new();
        let mut i: usize = 0;
        proof {
            assert forall|k: int| 0 <= k < ids.len() implies self@.has_feed(#[trigger] ids[k]) by {
                self@.lemma_members_exist(group_id, k);
            }
        }
        while i < members.feed_ids.len()
            invariant
                self.wf(),
                i <= members.feed_ids.len(),
                members.feed_ids@ == ids,
                forall|k: int| 0 <= k < ids.len() ==> self@.has_feed(#[trigger] ids[k]),
                feeds.deep_view() == ids.take(i as int).map_values(self@.feed_of()),
            decreases members.feed_ids.len() - i,
        {
            let id = members.feed_ids[i];
            match self.find_feed(id) {
                Some(at) => {
                    let ghost before = feeds;
                    let feed = self.feeds[at].clone();
                    feeds.push(feed);
                    proof {
                        lemma_deep_view_push(before, feeds, feed);
                    }
                },
                None => {},
            }
            i += 1;
        }
        feeds
    }

    /// Deletes the links of a group and returns how many there were.
    pub fn unlink_group(&mut self, group_id: u32) -> (removed: usize)
        requires
            old(self).wf(),
        ensures
            final(self).wf(),
            final(self)@ == old(self)@.without_links_of(group_id),
            removed == old(self)@.links.len() - final(self)@.links.len(),
    {
        let links = links_outside_group(&self.links, group_id);
        proof {
            old(self)@.lemma_without_links_of(group_id);
        }
        let removed = self.links.len() - links.len();
        self.links = links;
        removed
    }

    /// Records a crawl attempt against a feed. `NotFound` where no feed has this id;
    /// the store is then unchanged.
    pub fn record_attempt(&mut self, feed_id: u32, attempt: Attempt) -> (r: Result<(), Error>)
        requires
            old(self).wf(),
        ensures
            final(self).wf(),
            match r {
                Ok(_) => {
                    &&& old(self)@.has_feed(feed_id)
                    &&& final(self)@ == old(self)@.with_attempt(feed_id, attempt)
                },
                Err(e) => {
                    &&& !old(self)@.has_feed(feed_id)
                    &&& final(self)@ == old(self)@
                    &&& e@ == ErrorView::NotFound(SubjectView::Feed(feed_id))
                },
            },
    {
        match self.find_feed(feed_id) {
            None => Err(Error::NotFound(Subject::Feed(feed_id))),
            Some(i) => {
                let mut feed = self.feeds[i].clone();
                feed.last_crawl = Some(attempt);
                let ghost before = self.feeds;
                self.feeds.set(i, feed);
                proof {
                    lemma_deep_view_update(before, self.feeds, i as int, feed);
                    old(self)@.lemma_with_attempt(feed_id, attempt);
                }
                Ok(())
            },
        }
    }

    /// Whether an entry of feed `feed_id` with the external id `key` is stored.
    pub fn has_entry(&self, feed_id: u32, key: &String) -> (found: bool)
        ensures
            found == self@.stored(feed_id, key@),
    {
        holds_key(&self.entries, feed_id, key)
    }

    /// The stored entries of a feed, in the order in which they were stored.
    pub fn entries_of(&self, feed_id: u32) -> (entries: Vec<Entry>)
        ensures
            entries.deep_view() == self@.entries_of(feed_id),
    {
        entries_by_feed(&self.entries, feed_id, true)
    }

    /// The number of stored entries, over all feeds.
    pub fn entry_count(&self) -> (count: usize)
        ensures
            count == self@.entries.len(),
    {
        self.entries.len()
    }

    /// Takes in the entries of a document for a feed, in document order, and returns
    /// how many were new. An entry is stored if it has an identity that is not stored
    /// for this feed yet; stored entries are never rewritten.
    ///
    /// `NotFound` where no feed has this id; the store is then unchanged.
    pub fn store_entries(&mut self, feed_id: u32, raw: &Vec<RawEntry>) -> (r: Result<
        usize,
        Error,
    >)
        requires
            old(self).wf(),
        ensures
            final(self).wf(),
            match r {
                Ok(count) => {
                    &&& old(self)@.has_feed(feed_id)
                    &&& final(self)@ == old(self)@.with_entries(feed_id, raw.deep_view())
                    &&& count == final(self)@.entries.len() - old(self)@.entries.len()
                },
                Err(e) => {
                    &&& !old(self)@.has_feed(feed_id)
                    &&& final(self)@ == old(self)@
                    &&& e@ == ErrorView::NotFound(SubjectView::Feed(feed_id))
                },
            },
    {
        if self.find_feed(feed_id).is_none() {
            return Err(Error::NotFound(Subject::Feed(feed_id)));
        }
        let ghost start = self.entries.deep_view();
        let ghost views = raw.deep_view();
        let mut count: usize = 0;
        let mut i: usize = 0;
        while i < raw.len()
            invariant
                i <= raw.len(),
                views == raw.deep_view(),
                count <= i,
                self.entries.deep_view() == absorb(start, feed_id, views.take(i as int)),
                count == self.entries.deep_view().len() - start.len(),
                self.feeds == old(self).feeds,
                self.groups == old(self).groups,
                self.links == old(self).links,
                self.next_feed_id == old(self).next_feed_id,
                self.next_group_id == old(self).next_group_id,
            decreases raw.len() - i,
        {
            proof {
                assert(views.take(i + 1).drop_last() =~= views.take(i as int));
            }
            match entry_identity(&raw[i]) {
                Some(key) => {
                    if !holds_key(&self.entries, feed_id, &key) {
                        let entry = Entry {
                            feed_id,
                            external_id: key,
                            title: clone_text(&raw[i].title),
                            content: match clone_text(&raw[i].content) {
                                Some(body) => Some(body),
                                None => clone_text(&raw[i].summary),
                            },
                            published: raw[i].published,
                        };
                        self.entries.push(entry);
                        count += 1;
                    }
                },
                None => {},
            }
            i += 1;
        }
        proof {
            assert(views.take(i as int) =~= views);
            old(self)@.lemma_with_entries(feed_id, views);
        }
        Ok(count)
    }
}

} // verus!
