//! The contents of a store as plain values, for saving and loading. Loading checks
//! every constraint of the store, so that a store is consistent wherever it came from.

use crate::model::{Entry, Feed, Group, Membership};
use crate::store_view::{holds_feed, holds_group, same_key, StoreView};
use vstd::prelude::*;

verus! {

/// The contents of a store.
#[derive(Debug, PartialEq, Eq)]
pub struct Snapshot {
    pub feeds: Vec<Feed>,
    pub groups: Vec<Group>,
    pub links: Vec<Membership>,
    pub entries: Vec<Entry>,
    /// The id that the next feed gets.
    pub next_feed_id: u32,
    /// The id that the next group gets.
    pub next_group_id: u32,
}

impl View for Snapshot {
    type V = StoreView;

    open spec fn view(&self) -> StoreView {
        StoreView {
            feeds: self.feeds.deep_view(),
            groups: self.groups.deep_view(),
            links: self.links@,
            entries: self.entries.deep_view(),
            next_feed_id: self.next_feed_id,
            next_group_id: self.next_group_id,
        }
    }
}

/// Whether `feeds` holds a feed with this id.
fn feed_listed(feeds: &Vec<Feed>, id: u32) -> (found: bool)
    ensures
        found == holds_feed(feeds.deep_view(), id),
{
    let mut i: usize = 0;
    while i < feeds.len()
        invariant
            i <= feeds.len(),
            forall|k: int| 0 <= k < i ==> (#[trigger] feeds.deep_view()[k]).id != id,
        decreases feeds.len() - i,
    {
        if feeds[i].id == id {
            assert(feeds.deep_view()[i as int].id == id);
            return true;
        }
        i += 1;
    }
    false
}

/// Whether `groups` holds a group with this id.
fn group_listed(groups: &Vec<Group>, id: u32) -> (found: bool)
    ensures
        found == holds_group(groups.deep_view(), id),
{
    let mut i: usize = 0;
    while i < groups.len()
        invariant
            i <= groups.len(),
            forall|k: int| 0 <= k < i ==> (#[trigger] groups.deep_view()[k]).id != id,
        decreases groups.len() - i,
    {
        if groups[i].id == id {
            assert(groups.deep_view()[i as int].id == id);
            return true;
        }
        i += 1;
    }
    false
}

impl Snapshot {
    /// Checks that no two feeds share an id or an address and that every id is below
    /// the next one.
    pub fn feeds_consistent(&self) -> (ok: bool)
        ensures
            ok == self@.feeds_wf(),
    {
        let ghost views = self@.feeds;
        let mut i: usize = 0;
        while i < self.feeds.len()
            invariant
                i <= self.feeds.len(),
                views == self@.feeds,
                forall|a: int, b: int|
                    #![trigger views[a], views[b]]
                    0 <= a < b < i ==> views[a].id != views[b].id && views[a].url
                        != views[b].url,
                forall|a: int| 0 <= a < i ==> (#[trigger] views[a]).id < self.next_feed_id,
            decreases self.feeds.len() - i,
        {
            if self.feeds[i].id >= self.next_feed_id {
                return false;
            }
            let mut j: usize = 0;
            while j < i
                invariant
                    j <= i,
                    i < self.feeds.len(),
                    views == self@.feeds,
                    forall|a: int|
                        0 <= a < j ==> (#[trigger] views[a]).id != views[i as int].id
                            && views[a].url != views[i as int].url,
                decreases i - j,
            {
                if self.feeds[j].id == self.feeds[i].id || self.feeds[j].url == self.feeds[i].url {
                    assert(views[j as int].id == views[i as int].id || views[j as int].url
                        == views[i as int].url);
                    return false;
                }
                j += 1;
            }
            i += 1;
        }
        true
    }

    /// Checks that no two groups share an id or a title and that every id is below the
    /// next one.
    pub fn groups_consistent(&self) -> (ok: bool)
        ensures
            ok == self@.groups_wf(),
    {
        let ghost views = self@.groups;
        let mut i: usize = 0;
        while i < self.groups.len()
            invariant
                i <= self.groups.len(),
                views == self@.groups,
                forall|a: int, b: int|
                    #![trigger views[a], views[b]]
                    0 <= a < b < i ==> views[a].id != views[b].id && views[a].title
                        != views[b].title,
                forall|a: int| 0 <= a < i ==> (#[trigger] views[a]).id < self.next_group_id,
            decreases self.groups.len() - i,
        {
            if self.groups[i].id >= self.next_group_id {
                assert(!(views[i as int].id < self.next_group_id));
                return false;
            }
            let mut j: usize = 0;
            while j < i
                invariant
                    j <= i,
                    i < self.groups.len(),
                    views == self@.groups,
                    forall|a: int|
                        0 <= a < j ==> (#[trigger] views[a]).id != views[i as int].id
                            && views[a].title != views[i as int].title,
                decreases i - j,
            {
                if self.groups[j].id == self.groups[i].id || self.groups[j].title
                    == self.groups[i].title {
                    assert(views[j as int].id == views[i as int].id || views[j as int].title
                        == views[i as int].title);
                    return false;
                }
                j += 1;
            }
            i += 1;
        }
        true
    }

    /// Checks that every link joins a feed and a group that are listed and that no
    /// link occurs twice.
    pub fn links_consistent(&self) -> (ok: bool)
        ensures
            ok == self@.links_wf(),
    {
        let ghost links = self.links@;
        let mut i: usize = 0;
        while i < self.links.len()
            invariant
                i <= self.links.len(),
                links == self.links@,
                forall|k: int|
                    0 <= k < i ==> self@.has_feed((#[trigger] links[k]).feed_id)
                        && self@.has_group(links[k].group_id),
                forall|a: int, b: int| 0 <= a < b < i ==> links[a] != links[b],
            decreases self.links.len() - i,
        {
            let link = self.links[i];
            if !feed_listed(&self.feeds, link.feed_id) || !group_listed(
                &self.groups,
                link.group_id,
            ) {
                return false;
            }
            let mut j: usize = 0;
            while j < i
                invariant
                    j <= i,
                    i < self.links.len(),
                    links == self.links@,
                    link == links[i as int],
                    forall|a: int| 0 <= a < j ==> links[a] != link,
                decreases i - j,
            {
                let other = self.links[j];
                if other.feed_id == link.feed_id && other.group_id == link.group_id {
                    return false;
                }
                j += 1;
            }
            i += 1;
        }
        true
    }

    /// Checks that every entry belongs to a feed that is listed and that no two
    /// entries have the same identity.
    pub fn entries_consistent(&self) -> (ok: bool)
        ensures
            ok == self@.entries_wf(),
    {
        let ghost views = self@.entries;
        let mut i: usize = 0;
        while i < self.entries.len()
            invariant
                i <= self.entries.len(),
                views == self@.entries,
                forall|k: int| 0 <= k < i ==> self@.has_feed((#[trigger] views[k]).feed_id),
                forall|a: int, b: int|
                    #![trigger views[a], views[b]]
                    0 <= a < b < i ==> !same_key(views[a], views[b]),
            decreases self.entries.len() - i,
        {
            if !feed_listed(&self.feeds, self.entries[i].feed_id) {
                assert(!self@.has_feed(views[i as int].feed_id));
                return false;
            }
            let mut j: usize = 0;
            while j < i
                invariant
                    j <= i,
                    i < self.entries.len(),
                    views == self@.entries,
                    forall|a: int| 0 <= a < j ==> !same_key(#[trigger] views[a], views[i as int]),
                decreases i - j,
            {
                if self.entries[j].feed_id == self.entries[i].feed_id
                    && self.entries[j].external_id == self.entries[i].external_id {
                    assert(same_key(views[j as int], views[i as int]));
                    return false;
                }
                j += 1;
            }
            i += 1;
        }
        true
    }

    /// Checks every constraint of a store.
    pub fn is_consistent(&self) -> (ok: bool)
        ensures
            ok == self@.wf(),
    {
        self.feeds_consistent() && self.groups_consistent() && self.links_consistent()
            && self.entries_consistent()
    }
}

} // verus!
