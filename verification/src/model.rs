//! The shared data model: feeds, groups, their association and the entries of a feed.
//!
//! Every type that owns text has a view in which each `String` is a
//! `Seq<char>`; contracts throughout the crate are stated over those views.

use vstd::prelude::*;

verus! {

/// The text of an optional string.
pub open spec fn text_of(s: Option<String>) -> Option<Seq<char>> {
    match s {
        Some(t) => Some(t@),
        None => None,
    }
}

/// The texts of a list of strings, in order.
pub open spec fn texts_of(v: Seq<String>) -> Seq<Seq<char>> {
    Seq::new(v.len(), |i: int| v[i]@)
}

/// The view of a result: the view of the value, or the view of the error.
pub open spec fn result_view<T: View, E: View>(r: Result<T, E>) -> Result<T::V, E::V> {
    match r {
        Ok(value) => Ok(value@),
        Err(error) => Err(error@),
    }
}

/// The deep view of a vector after a push is the pushed deep view.
pub proof fn lemma_deep_view_push<T: DeepView>(before: Vec<T>, after: Vec<T>, item: T)
    requires
        after@ == before@.push(item),
    ensures
        after.deep_view() == before.deep_view().push(item.deep_view()),
{
}

/// The deep view of a vector after a removal is the deep view without that position.
pub proof fn lemma_deep_view_remove<T: DeepView>(before: Vec<T>, after: Vec<T>, i: int)
    requires
        0 <= i < before@.len(),
        after@ == before@.remove(i),
    ensures
        after.deep_view() == before.deep_view().remove(i),
{
}

/// The deep view of a vector after one item was replaced is the updated deep view.
pub proof fn lemma_deep_view_update<T: DeepView>(before: Vec<T>, after: Vec<T>, i: int, item: T)
    requires
        0 <= i < before@.len(),
        after@ == before@.update(i, item),
    ensures
        after.deep_view() == before.deep_view().update(i, item.deep_view()),
{
}

/// How a crawl attempt ended.
#[derive(Clone, Copy, Debug, PartialEq, Eq, Structural)]
pub enum CrawlStatus {
    /// The document was fetched and parsed and its new entries were stored.
    Succeeded,
    /// The document could not be fetched.
    FetchFailed,
    /// The document was fetched but is not a feed.
    ParseFailed,
}

/// The crawl bookkeeping of a feed: when it was last attempted and how that went.
#[derive(Clone, Copy, Debug, PartialEq, Eq, Structural)]
pub struct Attempt {
    /// The time of the attempt, in seconds.
    pub at: u64,
    pub status: CrawlStatus,
}

/// A subscribed source.
#[derive(Debug, PartialEq, Eq)]
pub struct Feed {
    /// Assigned by the store.
    pub id: u32,
    /// The display name, taken from the fetched document.
    pub title: String,
    /// The subscription address; no two feeds of a store share one.
    pub url: String,
    /// The address of the site for human readers.
    pub link: String,
    /// The most recent crawl attempt, if there was one.
    pub last_crawl: Option<Attempt>,
}

/// A feed, with its texts as sequences of characters.
pub struct FeedView {
    pub id: u32,
    pub title: Seq<char>,
    pub url: Seq<char>,
    pub link: Seq<char>,
    pub last_crawl: Option<Attempt>,
}

impl View for Feed {
    type V = FeedView;

    open spec fn view(&self) -> FeedView {
        FeedView {
            id: self.id,
            title: self.title@,
            url: self.url@,
            link: self.link@,
            last_crawl: self.last_crawl,
        }
    }
}

impl DeepView for Feed {
    type V = FeedView;

    open spec fn deep_view(&self) -> FeedView {
        self@
    }
}

impl Clone for Feed {
    fn clone(&self) -> (copy: Feed)
        ensures
            copy == *self,
    {
        Feed {
            id: self.id,
            title: self.title.clone(),
            url: self.url.clone(),
            link: self.link.clone(),
            last_crawl: self.last_crawl,
        }
    }
}

/// A named collection of feeds.
#[derive(Debug, PartialEq, Eq)]
pub struct Group {
    /// Assigned by the store.
    pub id: u32,
    /// The name by which users refer to the group; unique in a store.
    pub title: String,
}

/// A group, with its title as a sequence of characters.
pub struct GroupView {
    pub id: u32,
    pub title: Seq<char>,
}

impl View for Group {
    type V = GroupView;

    open spec fn view(&self) -> GroupView {
        GroupView { id: self.id, title: self.title@ }
    }
}

impl DeepView for Group {
    type V = GroupView;

    open spec fn deep_view(&self) -> GroupView {
        self@
    }
}

impl Clone for Group {
    fn clone(&self) -> (copy: Group)
        ensures
            copy == *self,
    {
        Group { id: self.id, title: self.title.clone() }
    }
}

/// One link of the many-to-many relation between feeds and groups.
#[derive(Clone, Copy, Debug, PartialEq, Eq, Structural)]
pub struct Membership {
    pub feed_id: u32,
    pub group_id: u32,
}

/// The feeds that a group currently refers to, in the order in which they were added.
#[derive(Debug, PartialEq, Eq)]
pub struct FeedGroup {
    pub group_id: u32,
    pub feed_ids: Vec<u32>,
}

/// An article of a feed, as stored.
#[derive(Debug, PartialEq, Eq)]
pub struct Entry {
    /// The feed that the entry belongs to.
    pub feed_id: u32,
    /// The identity of the entry within its feed.
    pub external_id: String,
    pub title: Option<String>,
    pub content: Option<String>,
    /// Seconds since the Unix epoch.
    pub published: Option<i64>,
}

/// An entry, with its texts as sequences of characters.
pub struct EntryView {
    pub feed_id: u32,
    pub external_id: Seq<char>,
    pub title: Option<Seq<char>>,
    pub content: Option<Seq<char>>,
    pub published: Option<i64>,
}

impl View for Entry {
    type V = EntryView;

    open spec fn view(&self) -> EntryView {
        EntryView {
            feed_id: self.feed_id,
            external_id: self.external_id@,
            title: text_of(self.title),
            content: text_of(self.content),
            published: self.published,
        }
    }
}

impl DeepView for Entry {
    type V = EntryView;

    open spec fn deep_view(&self) -> EntryView {
        self@
    }
}

/// A copy of an optional string.
pub fn clone_text(s: &Option<String>) -> (copy: Option<String>)
    ensures
        copy == *s,
{
    match s {
        Some(t) => Some(t.clone()),
        None => None,
    }
}

impl Clone for Entry {
    fn clone(&self) -> (copy: Entry)
        ensures
            copy == *self,
    {
        Entry {
            feed_id: self.feed_id,
            external_id: self.external_id.clone(),
            title: clone_text(&self.title),
            content: clone_text(&self.content),
            published: self.published,
        }
    }
}

} // verus!
