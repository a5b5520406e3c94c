use lares::document::RawEntry;
use lares::error::{Error, ErrorKind, StoreFault, Subject};
use lares::model::{Attempt, CrawlStatus, Entry, Feed, FeedGroup, Group};
use lares::snapshot::Snapshot;
use lares::store::Store;

fn s(text: &str) -> String {
    text.to_string()
}

fn with_next_ids(next_feed_id: u32, next_group_id: u32) -> Store {
    Store::restore(Snapshot {
        feeds: vec![],
        groups: vec![],
        links: vec![],
        entries: vec![],
        next_feed_id,
        next_group_id,
    })
    .unwrap()
}

fn item(id: &str, link: &str, title: &str) -> RawEntry {
    RawEntry {
        id: s(id),
        links: if link.is_empty() { vec![] } else { vec![s(link)] },
        title: Some(s(title)),
        summary: Some(format!("about {title}")),
        content: None,
        published: Some(7),
    }
}

fn two_feeds() -> Store {
    let mut store = Store::new();
    store.create_feed(s("A"), s("https://a/feed"), s("https://a/")).unwrap();
    store.create_feed(s("B"), s("https://b/feed"), s("https://b/")).unwrap();
    store
}

#[test]
fn new_store_is_empty() {
    let store = Store::new();
    assert!(store.feeds().is_empty());
    assert!(store.groups().is_empty());
    assert_eq!(store.entry_count(), 0);
}

#[test]
fn create_feed_assigns_ids_from_one() {
    let mut store = Store::new();
    let a = store.create_feed(s("A"), s("https://a/feed"), s("https://a/")).unwrap();
    let b = store.create_feed(s("B"), s("https://b/feed"), s("https://b/")).unwrap();
    assert_eq!(
        a,
        Feed { id: 1, title: s("A"), url: s("https://a/feed"), link: s("https://a/"), last_crawl: None }
    );
    assert_eq!(b.id, 2);
    assert_eq!(store.feeds(), vec![a, b]);
}

#[test]
fn create_feed_rejects_a_known_address() {
    let mut store = two_feeds();
    let again = store.create_feed(s("Other"), s("https://a/feed"), s("https://x/"));
    assert_eq!(again, Err(Error::AlreadyExists(Subject::FeedUrl(s("https://a/feed")))));
    assert_eq!(again.unwrap_err().kind(), ErrorKind::AlreadyExists);
    assert_eq!(store.feeds().len(), 2);
}

#[test]
fn create_feed_fails_when_ids_are_exhausted() {
    let mut store = with_next_ids(u32::MAX - 1, 1);
    let last = store.create_feed(s("A"), s("https://a/feed"), s("https://a/")).unwrap();
    assert_eq!(last.id, u32::MAX - 1);
    let none = store.create_feed(s("B"), s("https://b/feed"), s("https://b/"));
    assert_eq!(none, Err(Error::StoreError(StoreFault::FeedIdsExhausted)));
    assert_eq!(none.unwrap_err().kind(), ErrorKind::StoreError);
    assert_eq!(store.feeds().len(), 1);
}

#[test]
fn create_group_fails_when_ids_are_exhausted() {
    let mut store = with_next_ids(1, u32::MAX);
    assert_eq!(
        store.create_group(s("news")),
        Err(Error::StoreError(StoreFault::GroupIdsExhausted))
    );
    let first = store.create_feed(s("A"), s("https://a/feed"), s("https://a/")).unwrap();
    assert_eq!(first.id, 1);
}

#[test]
fn feed_lookup_by_id_and_by_address() {
    let store = two_feeds();
    assert_eq!(store.feed(2).unwrap().title, "B");
    assert_eq!(store.feed(3), Err(Error::NotFound(Subject::Feed(3))));
    assert_eq!(store.feed(3).unwrap_err().kind(), ErrorKind::NotFound);
    assert_eq!(store.feed_by_url(&s("https://a/feed")).unwrap().id, 1);
    assert_eq!(store.feed_by_url(&s("https://c/feed")), None);
}

#[test]
fn groups_are_unique_by_title() {
    let mut store = Store::new();
    let news = store.create_group(s("news")).unwrap();
    assert_eq!(news, Group { id: 1, title: s("news") });
    assert_eq!(
        store.create_group(s("news")),
        Err(Error::AlreadyExists(Subject::GroupTitle(s("news"))))
    );
    let tech = store.create_group(s("tech")).unwrap();
    assert_eq!(tech.id, 2);
    assert_eq!(store.groups(), vec![news, tech]);
    assert_eq!(store.group_by_title(&s("tech")).unwrap().id, 2);
    assert_eq!(store.group_by_title(&s("none")), None);
    assert_eq!(store.group(1).unwrap().title, "news");
    assert_eq!(store.group(9), Err(Error::NotFound(Subject::Group(9))));
}

#[test]
fn link_is_made_once() {
    let mut store = two_feeds();
    let group = store.create_group(s("news")).unwrap();
    assert_eq!(store.link(2, group.id), Ok(true));
    assert_eq!(store.link(2, group.id), Ok(false));
    assert_eq!(store.link(1, group.id), Ok(true));
    assert!(store.is_linked(2, group.id));
    assert!(!store.is_linked(2, 7));
    assert_eq!(store.members(group.id), FeedGroup { group_id: group.id, feed_ids: vec![2, 1] });
    let feeds = store.feeds_in_group(group.id);
    assert_eq!(feeds.iter().map(|f| f.id).collect::<Vec<u32>>(), vec![2, 1]);
    assert_eq!(feeds[0].title, "B");
}

#[test]
fn link_needs_group_and_feed() {
    let mut store = two_feeds();
    assert_eq!(store.link(1, 5), Err(Error::NotFound(Subject::Group(5))));
    let group = store.create_group(s("news")).unwrap();
    assert_eq!(store.link(9, group.id), Err(Error::NotFound(Subject::Feed(9))));
    assert_eq!(store.link(9, 5), Err(Error::NotFound(Subject::Group(5))));
    assert!(store.members(group.id).feed_ids.is_empty());
}

#[test]
fn delete_group_removes_its_links_only() {
    let mut store = two_feeds();
    let news = store.create_group(s("news")).unwrap();
    let tech = store.create_group(s("tech")).unwrap();
    store.link(1, news.id).unwrap();
    store.link(2, news.id).unwrap();
    store.link(1, tech.id).unwrap();
    store.store_entries(1, &vec![item("e1", "", "one")]).unwrap();
    assert_eq!(store.delete_group(news.id), Ok(Group { id: news.id, title: s("news") }));
    assert_eq!(store.feeds().len(), 2);
    assert_eq!(store.entry_count(), 1);
    assert!(store.members(news.id).feed_ids.is_empty());
    assert_eq!(store.members(tech.id).feed_ids, vec![1]);
    assert_eq!(store.groups(), vec![tech]);
    assert_eq!(store.delete_group(news.id), Err(Error::NotFound(Subject::Group(news.id))));
}

#[test]
fn unlink_group_counts_the_links() {
    let mut store = two_feeds();
    let news = store.create_group(s("news")).unwrap();
    let tech = store.create_group(s("tech")).unwrap();
    store.link(1, news.id).unwrap();
    store.link(2, news.id).unwrap();
    store.link(2, tech.id).unwrap();
    assert_eq!(store.unlink_group(news.id), 2);
    assert_eq!(store.unlink_group(news.id), 0);
    assert_eq!(store.members(tech.id).feed_ids, vec![2]);
    assert_eq!(store.groups().len(), 2);
}

#[test]
fn delete_feed_takes_entries_and_links_along() {
    let mut store = two_feeds();
    let news = store.create_group(s("news")).unwrap();
    store.link(1, news.id).unwrap();
    store.link(2, news.id).unwrap();
    store.store_entries(1, &vec![item("e1", "", "one"), item("e2", "", "two")]).unwrap();
    store.store_entries(2, &vec![item("e1", "", "uno")]).unwrap();
    let gone = store.delete_feed(1).unwrap();
    assert_eq!(gone.title, "A");
    assert_eq!(store.feeds().iter().map(|f| f.id).collect::<Vec<u32>>(), vec![2]);
    assert_eq!(store.members(news.id).feed_ids, vec![2]);
    assert!(store.entries_of(1).is_empty());
    assert_eq!(store.entries_of(2).len(), 1);
    assert_eq!(store.entry_count(), 1);
    assert_eq!(store.delete_feed(1), Err(Error::NotFound(Subject::Feed(1))));
}

#[test]
fn ids_are_not_reused_after_a_delete() {
    let mut store = two_feeds();
    store.delete_feed(2).unwrap();
    let next = store.create_feed(s("C"), s("https://c/feed"), s("https://c/")).unwrap();
    assert_eq!(next.id, 3);
    let again = store.create_feed(s("B"), s("https://b/feed"), s("https://b/")).unwrap();
    assert_eq!(again.id, 4);
}

#[test]
fn record_attempt_sets_the_bookkeeping() {
    let mut store = two_feeds();
    let attempt = Attempt { at: 100, status: CrawlStatus::FetchFailed };
    assert_eq!(store.record_attempt(2, attempt), Ok(()));
    assert_eq!(store.feed(2).unwrap().last_crawl, Some(attempt));
    assert_eq!(store.feed(1).unwrap().last_crawl, None);
    assert_eq!(store.record_attempt(5, attempt), Err(Error::NotFound(Subject::Feed(5))));
}

#[test]
fn store_entries_skips_what_is_stored() {
    let mut store = two_feeds();
    let first = vec![item("e1", "", "one"), item("e2", "", "two")];
    assert_eq!(store.store_entries(1, &first), Ok(2));
    let second = vec![item("e2", "", "two, edited"), item("e3", "", "three")];
    assert_eq!(store.store_entries(1, &second), Ok(1));
    let stored = store.entries_of(1);
    assert_eq!(
        stored.iter().map(|e| e.external_id.as_str()).collect::<Vec<&str>>(),
        vec!["e1", "e2", "e3"]
    );
    assert_eq!(
        stored[1],
        Entry {
            feed_id: 1,
            external_id: s("e2"),
            title: Some(s("two")),
            content: Some(s("about two")),
            published: Some(7),
        }
    );
    assert!(store.has_entry(1, &s("e3")));
    assert!(!store.has_entry(2, &s("e3")));
}

#[test]
fn store_entries_keeps_feeds_apart() {
    let mut store = two_feeds();
    assert_eq!(store.store_entries(1, &vec![item("e1", "", "one")]), Ok(1));
    assert_eq!(store.store_entries(2, &vec![item("e1", "", "uno")]), Ok(1));
    assert_eq!(store.entry_count(), 2);
    assert_eq!(store.entries_of(2)[0].title, Some(s("uno")));
}

#[test]
fn store_entries_stores_a_repeated_identity_once() {
    let mut store = two_feeds();
    let batch = vec![item("e1", "", "one"), item("e1", "", "one again"), item("", "", "nameless")];
    assert_eq!(store.store_entries(1, &batch), Ok(1));
    assert_eq!(store.entries_of(1)[0].title, Some(s("one")));
}

#[test]
fn store_entries_uses_the_link_where_the_identifier_is_missing() {
    let mut store = two_feeds();
    let batch = vec![item("", "https://a/1", "one"), item("", "https://a/1", "dup")];
    assert_eq!(store.store_entries(1, &batch), Ok(1));
    assert_eq!(store.entries_of(1)[0].external_id, "https://a/1");
}

#[test]
fn store_entries_needs_the_feed() {
    let mut store = two_feeds();
    assert_eq!(
        store.store_entries(3, &vec![item("e1", "", "one")]),
        Err(Error::NotFound(Subject::Feed(3)))
    );
    assert_eq!(store.entry_count(), 0);
}

#[test]
fn stored_content_is_the_body_or_else_the_summary() {
    let mut store = two_feeds();
    let mut with_body = item("e1", "", "one");
    with_body.content = Some(s("the whole text"));
    let mut bare = item("e3", "", "three");
    bare.summary = None;
    assert_eq!(store.store_entries(1, &vec![with_body, item("e2", "", "two"), bare]), Ok(3));
    let stored = store.entries_of(1);
    assert_eq!(stored[0].content, Some(s("the whole text")));
    assert_eq!(stored[1].content, Some(s("about two")));
    assert_eq!(stored[2].content, None);
}
