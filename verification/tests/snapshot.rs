use lares::document::RawEntry;
use lares::error::{Error, StoreFault};
use lares::model::{Attempt, CrawlStatus, Entry, Feed, Group, Membership};
use lares::snapshot::Snapshot;
use lares::store::Store;

fn s(text: &str) -> String {
    text.to_string()
}

fn feed(id: u32, url: &str) -> Feed {
    Feed { id, title: format!("feed {id}"), url: s(url), link: s(url), last_crawl: None }
}

fn group(id: u32, title: &str) -> Group {
    Group { id, title: s(title) }
}

fn entry(feed_id: u32, key: &str) -> Entry {
    Entry { feed_id, external_id: s(key), title: None, content: None, published: None }
}

fn sound() -> Snapshot {
    Snapshot {
        feeds: vec![feed(1, "https://a/"), feed(4, "https://b/")],
        groups: vec![group(2, "news"), group(3, "tech")],
        links: vec![
            Membership { feed_id: 1, group_id: 2 },
            Membership { feed_id: 4, group_id: 2 },
            Membership { feed_id: 1, group_id: 3 },
        ],
        entries: vec![entry(1, "x"), entry(4, "x"), entry(1, "y")],
        next_feed_id: 5,
        next_group_id: 4,
    }
}

fn rejected(snapshot: Snapshot) -> bool {
    let checked = snapshot.is_consistent();
    match Store::restore(snapshot) {
        Err(Error::StoreError(StoreFault::ConstraintViolated)) => !checked,
        _ => false,
    }
}

#[test]
fn snapshot_of_a_store_restores_to_the_same_store() {
    let mut store = Store::new();
    store.create_feed(s("A"), s("https://a/feed"), s("https://a/")).unwrap();
    store.create_feed(s("B"), s("https://b/feed"), s("https://b/")).unwrap();
    let news = store.create_group(s("news")).unwrap();
    store.link(2, news.id).unwrap();
    store
        .store_entries(
            2,
            &vec![RawEntry {
                id: s("e1"),
                links: vec![],
                title: Some(s("one")),
                summary: None,
                content: None,
                published: Some(3),
            }],
        )
        .unwrap();
    store.record_attempt(2, Attempt { at: 9, status: CrawlStatus::Succeeded }).unwrap();
    let snapshot = store.snapshot();
    assert_eq!(snapshot.feeds, store.feeds());
    assert_eq!(snapshot.groups, store.groups());
    assert_eq!(snapshot.links, vec![Membership { feed_id: 2, group_id: news.id }]);
    assert_eq!(snapshot.entries, store.entries_of(2));
    assert_eq!(snapshot.next_feed_id, 3);
    assert_eq!(snapshot.next_group_id, 2);
    let restored = Store::restore(store.snapshot()).unwrap();
    assert_eq!(restored.snapshot(), snapshot);
}

#[test]
fn restore_accepts_consistent_contents() {
    assert!(sound().is_consistent());
    let mut store = Store::restore(sound()).unwrap();
    assert_eq!(store.feeds().len(), 2);
    assert_eq!(store.members(2).feed_ids, vec![1, 4]);
    let next = store.create_feed(s("C"), s("https://c/"), s("https://c/")).unwrap();
    assert_eq!(next.id, 5);
}

#[test]
fn restore_rejects_a_repeated_feed_id() {
    let mut snapshot = sound();
    snapshot.feeds[1].id = 1;
    snapshot.links.remove(1);
    snapshot.entries.remove(1);
    assert!(!snapshot.feeds_consistent());
    assert!(rejected(snapshot));
}

#[test]
fn restore_rejects_a_repeated_feed_address() {
    let mut snapshot = sound();
    snapshot.feeds[1].url = s("https://a/");
    assert!(!snapshot.feeds_consistent());
    assert!(snapshot.groups_consistent());
    assert!(rejected(snapshot));
}

#[test]
fn restore_rejects_an_id_that_was_not_handed_out() {
    let mut snapshot = sound();
    snapshot.next_feed_id = 4;
    assert!(rejected(snapshot));
    let mut snapshot = sound();
    snapshot.next_group_id = 3;
    assert!(!snapshot.groups_consistent());
    assert!(rejected(snapshot));
}

#[test]
fn restore_rejects_a_repeated_group_title() {
    let mut snapshot = sound();
    snapshot.groups[1].title = s("news");
    assert!(rejected(snapshot));
    let mut snapshot = sound();
    snapshot.groups[1].id = 2;
    snapshot.links.remove(2);
    assert!(rejected(snapshot));
}

#[test]
fn restore_rejects_a_dangling_or_repeated_link() {
    let mut snapshot = sound();
    snapshot.links.push(Membership { feed_id: 2, group_id: 2 });
    assert!(!snapshot.links_consistent());
    assert!(rejected(snapshot));
    let mut snapshot = sound();
    snapshot.links.push(Membership { feed_id: 1, group_id: 9 });
    assert!(rejected(snapshot));
    let mut snapshot = sound();
    snapshot.links.push(Membership { feed_id: 1, group_id: 2 });
    assert!(rejected(snapshot));
}

#[test]
fn restore_rejects_a_dangling_or_repeated_entry() {
    let mut snapshot = sound();
    snapshot.entries.push(entry(3, "z"));
    assert!(!snapshot.entries_consistent());
    assert!(rejected(snapshot));
    let mut snapshot = sound();
    snapshot.entries.push(entry(4, "x"));
    assert!(rejected(snapshot));
}
