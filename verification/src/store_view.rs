//! The mathematical model of a store: what it holds, when that is consistent, and what
//! each operation makes of it.

use crate::document::{identity, RawEntryView};
use crate::model::{Attempt, EntryView, FeedView, GroupView, Membership};
use vstd::prelude::*;

verus! {

/// Whether two entries have the same identity: the same feed and the same external id.
pub open spec fn same_key(a: EntryView, b: EntryView) -> bool {
    a.feed_id == b.feed_id && a.external_id == b.external_id
}

/// Whether `feeds` holds a feed with this id.
pub open spec fn holds_feed(feeds: Seq<FeedView>, id: u32) -> bool {
    exists|i: int| 0 <= i < feeds.len() && (#[trigger] feeds[i]).id == id
}

/// Whether `groups` holds a group with this id.
pub open spec fn holds_group(groups: Seq<GroupView>, id: u32) -> bool {
    exists|i: int| 0 <= i < groups.len() && (#[trigger] groups[i]).id == id
}

/// Whether `entries` holds an entry of feed `feed_id` with the external id `key`.
pub open spec fn has_key(entries: Seq<EntryView>, feed_id: u32, key: Seq<char>) -> bool {
    exists|k: int|
        0 <= k < entries.len() && (#[trigger] entries[k]).feed_id == feed_id
            && entries[k].external_id == key
}

/// Whether no two of `entries` have the same identity.
pub open spec fn keys_unique(entries: Seq<EntryView>) -> bool {
    forall|k: int, l: int|
        #![trigger entries[k], entries[l]]
        0 <= k < l < entries.len() ==> !same_key(entries[k], entries[l])
}

/// The entries that are not of feed `feed_id`.
pub open spec fn entry_outside(feed_id: u32) -> spec_fn(EntryView) -> bool {
    |e: EntryView| e.feed_id != feed_id
}

/// The entries of feed `feed_id`.
pub open spec fn entry_inside(feed_id: u32) -> spec_fn(EntryView) -> bool {
    |e: EntryView| e.feed_id == feed_id
}

/// The links that do not refer to feed `feed_id`.
pub open spec fn link_outside_feed(feed_id: u32) -> spec_fn(Membership) -> bool {
    |m: Membership| m.feed_id != feed_id
}

/// The links that do not refer to group `group_id`.
pub open spec fn link_outside_group(group_id: u32) -> spec_fn(Membership) -> bool {
    |m: Membership| m.group_id != group_id
}

/// The links that refer to group `group_id`.
pub open spec fn link_inside_group(group_id: u32) -> spec_fn(Membership) -> bool {
    |m: Membership| m.group_id == group_id
}

/// The feed of a link.
pub open spec fn link_feed() -> spec_fn(Membership) -> u32 {
    |m: Membership| m.feed_id
}

/// The entry that is stored for a document's entry of feed `feed_id` whose identity is
/// `key`. Its content is the body of the document's entry, or the summary where the
/// entry has no body.
pub open spec fn stored_form(feed_id: u32, key: Seq<char>, raw: RawEntryView) -> EntryView {
    EntryView {
        feed_id,
        external_id: key,
        title: raw.title,
        content: match raw.content {
            Some(body) => Some(body),
            None => raw.summary,
        },
        published: raw.published,
    }
}

/// The stored entries after a document's entries of feed `feed_id` were taken in, in
/// document order: an entry is appended if it has an identity and no entry with that
/// identity is there yet; otherwise it is skipped. Nothing already there changes.
pub open spec fn absorb(entries: Seq<EntryView>, feed_id: u32, raw: Seq<RawEntryView>) -> Seq<
    EntryView,
>
    decreases raw.len(),
{
    if raw.len() == 0 {
        entries
    } else {
        let before = absorb(entries, feed_id, raw.drop_last());
        match identity(raw.last()) {
            Some(key) => if has_key(before, feed_id, key) {
                before
            } else {
                before.push(stored_form(feed_id, key, raw.last()))
            },
            None => before,
        }
    }
}

/// What a store holds.
pub struct StoreView {
    /// The feeds, in the order of their creation.
    pub feeds: Seq<FeedView>,
    /// The groups, in the order of their creation.
    pub groups: Seq<GroupView>,
    /// The links between feeds and groups, in the order of their creation.
    pub links: Seq<Membership>,
    /// The entries of all feeds, in the order in which they were stored.
    pub entries: Seq<EntryView>,
    /// The id that the next feed gets.
    pub next_feed_id: u32,
    /// The id that the next group gets.
    pub next_group_id: u32,
}

impl StoreView {
    /// The store that holds nothing. Ids start at 1.
    pub open spec fn empty() -> StoreView {
        StoreView {
            feeds: Seq::empty(),
            groups: Seq::empty(),
            links: Seq::empty(),
            entries: Seq::empty(),
            next_feed_id: 1,
            next_group_id: 1,
        }
    }

    /// Whether a feed has this id.
    pub open spec fn has_feed(self, id: u32) -> bool {
        holds_feed(self.feeds, id)
    }

    /// The position of the feed with this id.
    pub open spec fn feed_index(self, id: u32) -> int {
        choose|i: int| 0 <= i < self.feeds.len() && (#[trigger] self.feeds[i]).id == id
    }

    /// The feed with this id.
    pub open spec fn feed(self, id: u32) -> FeedView {
        self.feeds[self.feed_index(id)]
    }

    /// Whether a feed has this subscription address.
    pub open spec fn has_url(self, url: Seq<char>) -> bool {
        exists|i: int| 0 <= i < self.feeds.len() && (#[trigger] self.feeds[i]).url == url
    }

    /// The position of the feed with this subscription address.
    pub open spec fn url_index(self, url: Seq<char>) -> int {
        choose|i: int| 0 <= i < self.feeds.len() && (#[trigger] self.feeds[i]).url == url
    }

    /// The feed with this subscription address.
    pub open spec fn feed_at(self, url: Seq<char>) -> FeedView {
        self.feeds[self.url_index(url)]
    }

    /// Whether a group has this id.
    pub open spec fn has_group(self, id: u32) -> bool {
        holds_group(self.groups, id)
    }

    /// The position of the group with this id.
    pub open spec fn group_index(self, id: u32) -> int {
        choose|i: int| 0 <= i < self.groups.len() && (#[trigger] self.groups[i]).id == id
    }

    /// The group with this id.
    pub open spec fn group(self, id: u32) -> GroupView {
        self.groups[self.group_index(id)]
    }

    /// Whether a group has this title.
    pub open spec fn has_title(self, title: Seq<char>) -> bool {
        exists|i: int| 0 <= i < self.groups.len() && (#[trigger] self.groups[i]).title == title
    }

    /// The position of the group with this title.
    pub open spec fn title_index(self, title: Seq<char>) -> int {
        choose|i: int| 0 <= i < self.groups.len() && (#[trigger] self.groups[i]).title == title
    }

    /// The group with this title.
    pub open spec fn group_titled(self, title: Seq<char>) -> GroupView {
        self.groups[self.title_index(title)]
    }

    /// Whether the feed is linked to the group.
    pub open spec fn linked(self, feed_id: u32, group_id: u32) -> bool {
        self.links.contains(Membership { feed_id, group_id })
    }

    /// The ids of the feeds linked to a group, in the order in which they were linked.
    pub open spec fn members(self, group_id: u32) -> Seq<u32> {
        self.links.filter(link_inside_group(group_id)).map_values(link_feed())
    }

    /// The feed with a given id, as a function of the id.
    pub open spec fn feed_of(self) -> spec_fn(u32) -> FeedView {
        |id: u32| self.feed(id)
    }

    /// The feeds linked to a group, in the order in which they were linked.
    pub open spec fn feeds_in(self, group_id: u32) -> Seq<FeedView> {
        self.members(group_id).map_values(self.feed_of())
    }

    /// Whether an entry of feed `feed_id` with the external id `key` is stored.
    pub open spec fn stored(self, feed_id: u32, key: Seq<char>) -> bool {
        has_key(self.entries, feed_id, key)
    }

    /// The stored entries of a feed, in the order in which they were stored.
    pub open spec fn entries_of(self, feed_id: u32) -> Seq<EntryView> {
        self.entries.filter(entry_inside(feed_id))
    }

    /// No two feeds share an id or a subscription address, and every id was handed out.
    pub open spec fn feeds_wf(self) -> bool {
        &&& forall|i: int, j: int|
            #![trigger self.feeds[i], self.feeds[j]]
            0 <= i < j < self.feeds.len() ==> self.feeds[i].id != self.feeds[j].id
                && self.feeds[i].url != self.feeds[j].url
        &&& forall|i: int|
            0 <= i < self.feeds.len() ==> (#[trigger] self.feeds[i]).id < self.next_feed_id
    }

    /// No two groups share an id or a title, and every id was handed out.
    pub open spec fn groups_wf(self) -> bool {
        &&& forall|i: int, j: int|
            #![trigger self.groups[i], self.groups[j]]
            0 <= i < j < self.groups.len() ==> self.groups[i].id != self.groups[j].id
                && self.groups[i].title != self.groups[j].title
        &&& forall|i: int|
            0 <= i < self.groups.len() ==> (#[trigger] self.groups[i]).id < self.next_group_id
    }

    /// Every link joins a feed and a group that exist, and no link occurs twice.
    pub open spec fn links_wf(self) -> bool {
        &&& forall|k: int|
            0 <= k < self.links.len() ==> self.has_feed((#[trigger] self.links[k]).feed_id)
                && self.has_group(self.links[k].group_id)
        &&& self.links.no_duplicates()
    }

    /// Every entry belongs to a feed that exists, and no two have the same identity.
    pub open spec fn entries_wf(self) -> bool {
        &&& forall|k: int|
            0 <= k < self.entries.len() ==> self.has_feed((#[trigger] self.entries[k]).feed_id)
        &&& keys_unique(self.entries)
    }

    /// The store is consistent.
    pub open spec fn wf(self) -> bool {
        &&& self.feeds_wf()
        &&& self.groups_wf()
        &&& self.links_wf()
        &&& self.entries_wf()
    }

    /// The store after a feed was created. The feed gets the next id and no bookkeeping.
    pub open spec fn with_feed(self, title: Seq<char>, url: Seq<char>, link: Seq<char>) -> StoreView {
        StoreView {
            feeds: self.feeds.push(
                FeedView { id: self.next_feed_id, title, url, link, last_crawl: None },
            ),
            next_feed_id: (self.next_feed_id + 1) as u32,
            ..self
        }
    }

    /// The store after a feed was deleted, with its entries and its links.
    pub open spec fn without_feed(self, id: u32) -> StoreView {
        StoreView {
            feeds: self.feeds.remove(self.feed_index(id)),
            links: self.links.filter(link_outside_feed(id)),
            entries: self.entries.filter(entry_outside(id)),
            ..self
        }
    }

    /// The store after a group was created. The group gets the next id.
    pub open spec fn with_group(self, title: Seq<char>) -> StoreView {
        StoreView {
            groups: self.groups.push(GroupView { id: self.next_group_id, title }),
            next_group_id: (self.next_group_id + 1) as u32,
            ..self
        }
    }

    /// The store after the links of a group were deleted.
    pub open spec fn without_links_of(self, group_id: u32) -> StoreView {
        StoreView { links: self.links.filter(link_outside_group(group_id)), ..self }
    }

    /// The store after a group was deleted, with its links. Feeds and entries stay.
    pub open spec fn without_group(self, id: u32) -> StoreView {
        StoreView {
            groups: self.groups.remove(self.group_index(id)),
            links: self.links.filter(link_outside_group(id)),
            ..self
        }
    }

    /// The store after a feed was linked to a group. A link that is there already is
    /// not made again.
    pub open spec fn with_link(self, feed_id: u32, group_id: u32) -> StoreView {
        if self.linked(feed_id, group_id) {
            self
        } else {
            StoreView { links: self.links.push(Membership { feed_id, group_id }), ..self }
        }
    }

    /// The store after a crawl attempt was recorded against a feed.
    pub open spec fn with_attempt(self, feed_id: u32, attempt: Attempt) -> StoreView {
        let i = self.feed_index(feed_id);
        StoreView {
            feeds: self.feeds.update(
                i,
                FeedView { last_crawl: Some(attempt), ..self.feeds[i] },
            ),
            ..self
        }
    }

    /// The store after the entries of a document were taken in for a feed.
    pub open spec fn with_entries(self, feed_id: u32, raw: Seq<RawEntryView>) -> StoreView {
        StoreView { entries: absorb(self.entries, feed_id, raw), ..self }
    }
}

/// Whether no earlier item of `s` clashes with a later one.
pub open spec fn clash_free<A>(s: Seq<A>, clash: spec_fn(A, A) -> bool) -> bool {
    forall|i: int, j: int| #![trigger s[i], s[j]] 0 <= i < j < s.len() ==> !clash(s[i], s[j])
}

/// Filtering keeps a sequence free of clashes.
pub proof fn lemma_filter_clash_free<A>(
    s: Seq<A>,
    keep: spec_fn(A) -> bool,
    clash: spec_fn(A, A) -> bool,
)
    requires
        clash_free(s, clash),
    ensures
        clash_free(s.filter(keep), clash),
    decreases s.len(),
{
    reveal(Seq::filter);
    if s.len() > 0 {
        let rest = s.drop_last();
        assert(clash_free(rest, clash));
        lemma_filter_clash_free(rest, keep, clash);
        let kept = rest.filter(keep);
        let all = s.filter(keep);
        if keep(s.last()) {
            assert forall|i: int, j: int| 0 <= i < j < all.len() implies !clash(
                all[i],
                all[j],
            ) by {
                if j == kept.len() {
                    rest.lemma_filter_contains_rev(keep, kept[i]);
                }
            }
        }
    }
}

/// What filtering keeps was there before and meets the condition.
pub proof fn lemma_filter_member<A>(s: Seq<A>, keep: spec_fn(A) -> bool, i: int)
    requires
        0 <= i < s.filter(keep).len(),
    ensures
        keep(s.filter(keep)[i]),
        s.contains(s.filter(keep)[i]),
{
    let kept = s.filter(keep);
    s.lemma_filter_contains_rev(keep, kept[i]);
}

/// Filtering keeps the links free of duplicates.
pub proof fn lemma_filter_links(links: Seq<Membership>, keep: spec_fn(Membership) -> bool)
    requires
        links.no_duplicates(),
    ensures
        links.filter(keep).no_duplicates(),
{
    let clash = |a: Membership, b: Membership| a == b;
    lemma_filter_clash_free(links, keep, clash);
    assert(clash_free(links.filter(keep), clash));
}

/// Filtering keeps the identities of entries unique.
pub proof fn lemma_filter_entries(entries: Seq<EntryView>, keep: spec_fn(EntryView) -> bool)
    requires
        keys_unique(entries),
    ensures
        keys_unique(entries.filter(keep)),
{
    let clash = |a: EntryView, b: EntryView| same_key(a, b);
    lemma_filter_clash_free(entries, keep, clash);
    assert(clash_free(entries.filter(keep), clash));
}

/// A feed that is held stays held when a feed with another id is removed.
pub proof fn lemma_holds_feed_remove(feeds: Seq<FeedView>, at: int, id: u32)
    requires
        0 <= at < feeds.len(),
        holds_feed(feeds, id),
        feeds[at].id != id,
    ensures
        holds_feed(feeds.remove(at), id),
{
    let i = choose|i: int| 0 <= i < feeds.len() && (#[trigger] feeds[i]).id == id;
    if i < at {
        assert(feeds.remove(at)[i].id == id);
    } else {
        assert(feeds.remove(at)[i - 1].id == id);
    }
}

/// A group that is held stays held when a group with another id is removed.
pub proof fn lemma_holds_group_remove(groups: Seq<GroupView>, at: int, id: u32)
    requires
        0 <= at < groups.len(),
        holds_group(groups, id),
        groups[at].id != id,
    ensures
        holds_group(groups.remove(at), id),
{
    let i = choose|i: int| 0 <= i < groups.len() && (#[trigger] groups[i]).id == id;
    if i < at {
        assert(groups.remove(at)[i].id == id);
    } else {
        assert(groups.remove(at)[i - 1].id == id);
    }
}

/// A feed that is held stays held when a feed is replaced by one with the same id.
pub proof fn lemma_holds_feed_update(feeds: Seq<FeedView>, at: int, feed: FeedView, id: u32)
    requires
        0 <= at < feeds.len(),
        holds_feed(feeds, id),
        feeds[at].id == feed.id,
    ensures
        holds_feed(feeds.update(at, feed), id),
{
    let i = choose|i: int| 0 <= i < feeds.len() && (#[trigger] feeds[i]).id == id;
    assert(feeds.update(at, feed)[i].id == id);
}

/// A key that is held stays held when another entry is appended.
pub proof fn lemma_has_key_push(entries: Seq<EntryView>, entry: EntryView, feed_id: u32, key: Seq<char>)
    requires
        has_key(entries, feed_id, key),
    ensures
        has_key(entries.push(entry), feed_id, key),
{
    let k = choose|k: int|
        0 <= k < entries.len() && (#[trigger] entries[k]).feed_id == feed_id
            && entries[k].external_id == key;
    assert(entries.push(entry)[k] == entries[k]);
}

/// Taking in a document's entries appends to what is stored: every entry that was
/// there stays where it was, every appended entry is of the crawled feed, and
/// identities stay unique.
pub proof fn lemma_absorb(entries: Seq<EntryView>, feed_id: u32, raw: Seq<RawEntryView>)
    ensures
        entries.is_prefix_of(absorb(entries, feed_id, raw)),
        absorb(entries, feed_id, raw).len() <= entries.len() + raw.len(),
        forall|k: int|
            entries.len() <= k < absorb(entries, feed_id, raw).len() ==> (#[trigger] absorb(
                entries,
                feed_id,
                raw,
            )[k]).feed_id == feed_id,
        keys_unique(entries) ==> keys_unique(absorb(entries, feed_id, raw)),
    decreases raw.len(),
{
    if raw.len() > 0 {
        lemma_absorb(entries, feed_id, raw.drop_last());
    }
}

/// After a document's entries were taken in, the identity of each of them is stored.
pub proof fn lemma_absorb_covers(
    entries: Seq<EntryView>,
    feed_id: u32,
    raw: Seq<RawEntryView>,
    i: int,
)
    requires
        0 <= i < raw.len(),
        identity(raw[i]) is Some,
    ensures
        has_key(absorb(entries, feed_id, raw), feed_id, identity(raw[i])->0),
    decreases raw.len(),
{
    let before = absorb(entries, feed_id, raw.drop_last());
    let after = absorb(entries, feed_id, raw);
    if i < raw.len() - 1 {
        lemma_absorb_covers(entries, feed_id, raw.drop_last(), i);
        let key = identity(raw[i])->0;
        match identity(raw.last()) {
            Some(last_key) => {
                if !has_key(before, feed_id, last_key) {
                    lemma_has_key_push(
                        before,
                        stored_form(feed_id, last_key, raw.last()),
                        feed_id,
                        key,
                    );
                }
            },
            None => {},
        }
    } else {
        let key = identity(raw.last())->0;
        if !has_key(before, feed_id, key) {
            let entry = stored_form(feed_id, key, raw.last());
            assert(after[before.len() as int] == entry);
        }
    }
}

/// Entries whose identities are all stored already add nothing.
pub proof fn lemma_absorb_known(entries: Seq<EntryView>, feed_id: u32, raw: Seq<RawEntryView>)
    requires
        forall|i: int|
            0 <= i < raw.len() && identity(#[trigger] raw[i]) is Some ==> has_key(
                entries,
                feed_id,
                identity(raw[i])->0,
            ),
    ensures
        absorb(entries, feed_id, raw) == entries,
    decreases raw.len(),
{
    if raw.len() > 0 {
        lemma_absorb_known(entries, feed_id, raw.drop_last());
    }
}

/// A feed that is held stays held when another feed is appended.
pub proof fn lemma_holds_feed_push(feeds: Seq<FeedView>, feed: FeedView, id: u32)
    requires
        holds_feed(feeds, id),
    ensures
        holds_feed(feeds.push(feed), id),
{
    let i = choose|i: int| 0 <= i < feeds.len() && (#[trigger] feeds[i]).id == id;
    assert(feeds.push(feed)[i].id == id);
}

/// A group that is held stays held when another group is appended.
pub proof fn lemma_holds_group_push(groups: Seq<GroupView>, group: GroupView, id: u32)
    requires
        holds_group(groups, id),
    ensures
        holds_group(groups.push(group), id),
{
    let i = choose|i: int| 0 <= i < groups.len() && (#[trigger] groups[i]).id == id;
    assert(groups.push(group)[i].id == id);
}

impl StoreView {
    /// In a consistent store a feed is found by its id and by its address, at its own
    /// position and nowhere else.
    pub proof fn lemma_feed_position(self, i: int)
        requires
            self.feeds_wf(),
            0 <= i < self.feeds.len(),
        ensures
            self.has_feed(self.feeds[i].id),
            self.feed_index(self.feeds[i].id) == i,
            self.has_url(self.feeds[i].url),
            self.url_index(self.feeds[i].url) == i,
    {
    }

    /// In a consistent store a group is found by its id and by its title, at its own
    /// position and nowhere else.
    pub proof fn lemma_group_position(self, i: int)
        requires
            self.groups_wf(),
            0 <= i < self.groups.len(),
        ensures
            self.has_group(self.groups[i].id),
            self.group_index(self.groups[i].id) == i,
            self.has_title(self.groups[i].title),
            self.title_index(self.groups[i].title) == i,
    {
    }

    /// In a consistent store every member of a group is a feed that exists.
    pub proof fn lemma_members_exist(self, group_id: u32, k: int)
        requires
            self.links_wf(),
            0 <= k < self.members(group_id).len(),
        ensures
            self.has_feed(self.members(group_id)[k]),
    {
        let kept = self.links.filter(link_inside_group(group_id));
        lemma_filter_member(self.links, link_inside_group(group_id), k);
        assert(self.members(group_id)[k] == kept[k].feed_id);
    }

    /// Creating a feed under an address that no feed has keeps the store consistent.
    pub proof fn lemma_with_feed(self, title: Seq<char>, url: Seq<char>, link: Seq<char>)
        requires
            self.wf(),
            !self.has_url(url),
            self.next_feed_id < u32::MAX,
        ensures
            self.with_feed(title, url, link).wf(),
    {
        let after = self.with_feed(title, url, link);
        let feed = after.feeds.last();
        assert forall|k: int| 0 <= k < after.links.len() implies after.has_feed(
            (#[trigger] after.links[k]).feed_id,
        ) && after.has_group(after.links[k].group_id) by {
            lemma_holds_feed_push(self.feeds, feed, self.links[k].feed_id);
        }
        assert forall|k: int| 0 <= k < after.entries.len() implies after.has_feed(
            (#[trigger] after.entries[k]).feed_id,
        ) by {
            lemma_holds_feed_push(self.feeds, feed, self.entries[k].feed_id);
        }
    }

    /// Deleting a feed with its links and entries keeps the store consistent.
    pub proof fn lemma_without_feed(self, id: u32)
        requires
            self.wf(),
            self.has_feed(id),
        ensures
            self.without_feed(id).wf(),
            !self.without_feed(id).has_feed(id),
    {
        let after = self.without_feed(id);
        let at = self.feed_index(id);
        assert forall|k: int| 0 <= k < after.links.len() implies after.has_feed(
            (#[trigger] after.links[k]).feed_id,
        ) && after.has_group(after.links[k].group_id) by {
            lemma_filter_member(self.links, link_outside_feed(id), k);
            lemma_holds_feed_remove(self.feeds, at, after.links[k].feed_id);
        }
        lemma_filter_links(self.links, link_outside_feed(id));
        assert forall|k: int| 0 <= k < after.entries.len() implies after.has_feed(
            (#[trigger] after.entries[k]).feed_id,
        ) by {
            lemma_filter_member(self.entries, entry_outside(id), k);
            lemma_holds_feed_remove(self.feeds, at, after.entries[k].feed_id);
        }
        lemma_filter_entries(self.entries, entry_outside(id));
    }

    /// Creating a group under a title that no group has keeps the store consistent.
    pub proof fn lemma_with_group(self, title: Seq<char>)
        requires
            self.wf(),
            !self.has_title(title),
            self.next_group_id < u32::MAX,
        ensures
            self.with_group(title).wf(),
    {
        let after = self.with_group(title);
        let group = after.groups.last();
        assert forall|k: int| 0 <= k < after.links.len() implies after.has_feed(
            (#[trigger] after.links[k]).feed_id,
        ) && after.has_group(after.links[k].group_id) by {
            lemma_holds_group_push(self.groups, group, self.links[k].group_id);
        }
    }

    /// Deleting the links of a group keeps the store consistent.
    pub proof fn lemma_without_links_of(self, group_id: u32)
        requires
            self.wf(),
        ensures
            self.without_links_of(group_id).wf(),
    {
        let after = self.without_links_of(group_id);
        assert forall|k: int| 0 <= k < after.links.len() implies after.has_feed(
            (#[trigger] after.links[k]).feed_id,
        ) && after.has_group(after.links[k].group_id) by {
            lemma_filter_member(self.links, link_outside_group(group_id), k);
        }
        lemma_filter_links(self.links, link_outside_group(group_id));
    }

    /// Deleting a group with its links keeps the store consistent.
    pub proof fn lemma_without_group(self, id: u32)
        requires
            self.wf(),
            self.has_group(id),
        ensures
            self.without_group(id).wf(),
            !self.without_group(id).has_group(id),
    {
        let after = self.without_group(id);
        let at = self.group_index(id);
        assert forall|k: int| 0 <= k < after.links.len() implies after.has_feed(
            (#[trigger] after.links[k]).feed_id,
        ) && after.has_group(after.links[k].group_id) by {
            lemma_filter_member(self.links, link_outside_group(id), k);
            lemma_holds_group_remove(self.groups, at, after.links[k].group_id);
        }
        lemma_filter_links(self.links, link_outside_group(id));
    }

    /// Linking a feed and a group that both exist keeps the store consistent.
    pub proof fn lemma_with_link(self, feed_id: u32, group_id: u32)
        requires
            self.wf(),
            self.has_feed(feed_id),
            self.has_group(group_id),
        ensures
            self.with_link(feed_id, group_id).wf(),
            self.with_link(feed_id, group_id).linked(feed_id, group_id),
    {
        let after = self.with_link(feed_id, group_id);
        let link = Membership { feed_id, group_id };
        if !self.linked(feed_id, group_id) {
            assert(after.links[self.links.len() as int] == link);
        }
    }

    /// Recording a crawl attempt against a feed that exists keeps the store consistent.
    pub proof fn lemma_with_attempt(self, feed_id: u32, attempt: Attempt)
        requires
            self.wf(),
            self.has_feed(feed_id),
        ensures
            self.with_attempt(feed_id, attempt).wf(),
    {
        let after = self.with_attempt(feed_id, attempt);
        let at = self.feed_index(feed_id);
        let feed = after.feeds[at];
        assert forall|k: int| 0 <= k < after.links.len() implies after.has_feed(
            (#[trigger] after.links[k]).feed_id,
        ) && after.has_group(after.links[k].group_id) by {
            lemma_holds_feed_update(self.feeds, at, feed, self.links[k].feed_id);
        }
        assert forall|k: int| 0 <= k < after.entries.len() implies after.has_feed(
            (#[trigger] after.entries[k]).feed_id,
        ) by {
            lemma_holds_feed_update(self.feeds, at, feed, self.entries[k].feed_id);
        }
    }

    /// Taking in a document's entries for a feed that exists keeps the store consistent.
    pub proof fn lemma_with_entries(self, feed_id: u32, raw: Seq<RawEntryView>)
        requires
            self.wf(),
            self.has_feed(feed_id),
        ensures
            self.with_entries(feed_id, raw).wf(),
    {
        let after = self.with_entries(feed_id, raw);
        lemma_absorb(self.entries, feed_id, raw);
        assert forall|k: int| 0 <= k < after.entries.len() implies after.has_feed(
            (#[trigger] after.entries[k]).feed_id,
        ) by {
            if k < self.entries.len() {
                assert(after.entries[k] == self.entries[k]);
            }
        }
    }
}

} // verus!
