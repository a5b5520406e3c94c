use lares::crawl::CrawlReport;
use lares::document::{body_of, Document, Fetched, RawEntry};
use lares::error::{Error, FetchFailure, ParseFailure, PipelineError, Subject};
use lares::model::{Attempt, CrawlStatus};
use lares::store::Store;

fn s(text: &str) -> String {
    text.to_string()
}

fn entry(id: &str, link: &str) -> RawEntry {
    RawEntry {
        id: s(id),
        links: if link.is_empty() { vec![] } else { vec![s(link)] },
        title: Some(format!("Post {id}")),
        summary: None,
        content: None,
        published: None,
    }
}

fn ok(entries: usize) -> Result<Document, PipelineError> {
    Ok(Document {
        title: Some(s("Example Blog")),
        links: vec![],
        entries: (0..entries).map(|i| entry(&format!("urn:example:post:{i}"), "")).collect(),
    })
}

fn fetch_failed(fetched: Fetched) -> Result<Document, PipelineError> {
    Err(PipelineError::Fetch(body_of(fetched).unwrap_err()))
}

fn store_with_feeds() -> Store {
    let mut store = Store::new();
    store.create_feed(s("A"), s("https://a/feed"), s("https://a/")).unwrap();
    store.create_feed(s("B"), s("https://b/feed"), s("https://b/")).unwrap();
    store
}

#[test]
fn second_crawl_of_an_unchanged_document_stores_nothing() {
    let mut store = store_with_feeds();
    let first = store.crawl(1, ok(5), 1000).unwrap();
    assert_eq!(first, CrawlReport { feed_id: 1, new_entries: 5, failure: None });
    assert_eq!(first.status(), CrawlStatus::Succeeded);
    let second = store.crawl(1, ok(5), 2000).unwrap();
    assert_eq!(second, CrawlReport { feed_id: 1, new_entries: 0, failure: None });
    assert_eq!(store.entries_of(1).len(), 5);
    assert_eq!(
        store.feed(1).unwrap().last_crawl,
        Some(Attempt { at: 2000, status: CrawlStatus::Succeeded })
    );
}

#[test]
fn crawl_stores_only_what_is_new() {
    let mut store = store_with_feeds();
    assert_eq!(store.crawl(1, ok(2), 10).unwrap().new_entries, 2);
    assert_eq!(store.crawl(1, ok(5), 20).unwrap().new_entries, 3);
    assert_eq!(store.crawl(1, ok(1), 30).unwrap().new_entries, 0);
    let ids: Vec<String> = store.entries_of(1).into_iter().map(|e| e.external_id).collect();
    assert_eq!(
        ids,
        vec![
            "urn:example:post:0",
            "urn:example:post:1",
            "urn:example:post:2",
            "urn:example:post:3",
            "urn:example:post:4"
        ]
    );
}

#[test]
fn repeated_crawls_keep_identities_unique() {
    let mut store = store_with_feeds();
    for round in 0..4u64 {
        store.crawl(1, ok(3), round).unwrap();
        store.crawl(2, ok(3), round).unwrap();
    }
    let mut keys: Vec<(u32, String)> = Vec::new();
    for feed in [1u32, 2u32] {
        for entry in store.entries_of(feed) {
            keys.push((entry.feed_id, entry.external_id));
        }
    }
    assert_eq!(keys.len(), 6);
    let mut distinct = keys.clone();
    distinct.sort();
    distinct.dedup();
    assert_eq!(distinct.len(), 6);
    assert_eq!(store.entry_count(), 6);
}

#[test]
fn failed_fetch_is_recorded_and_stores_nothing() {
    let mut store = store_with_feeds();
    store.crawl(1, ok(2), 100).unwrap();
    let broken = fetch_failed(Fetched::Response { status: 500, body: vec![] });
    let report = store.crawl(1, broken, 200).unwrap();
    assert_eq!(
        report,
        CrawlReport {
            feed_id: 1,
            new_entries: 0,
            failure: Some(PipelineError::Fetch(FetchFailure::Status(500))),
        }
    );
    assert_eq!(report.status(), CrawlStatus::FetchFailed);
    assert_eq!(
        store.feed(1).unwrap().last_crawl,
        Some(Attempt { at: 200, status: CrawlStatus::FetchFailed })
    );
    assert_eq!(store.entries_of(1).len(), 2);
    assert_eq!(store.entry_count(), 2);
}

#[test]
fn transport_failure_is_a_failed_fetch() {
    let mut store = store_with_feeds();
    let report =
        store.crawl(2, fetch_failed(Fetched::Failed { cause: s("timeout") }), 5).unwrap();
    assert_eq!(
        report.failure,
        Some(PipelineError::Fetch(FetchFailure::Transport(s("timeout"))))
    );
    assert_eq!(report.status(), CrawlStatus::FetchFailed);
    assert_eq!(store.feed(2).unwrap().last_crawl.unwrap().at, 5);
}

#[test]
fn invalid_body_is_a_failed_parse() {
    let mut store = store_with_feeds();
    let invalid = Err(PipelineError::Parse(ParseFailure::Malformed(s("no root element"))));
    let report = store.crawl(1, invalid, 9).unwrap();
    assert_eq!(report.status(), CrawlStatus::ParseFailed);
    assert_eq!(
        report.failure,
        Some(PipelineError::Parse(ParseFailure::Malformed(s("no root element"))))
    );
    assert_eq!(report.new_entries, 0);
    assert_eq!(
        store.feed(1).unwrap().last_crawl,
        Some(Attempt { at: 9, status: CrawlStatus::ParseFailed })
    );
    assert_eq!(store.entry_count(), 0);
}

#[test]
fn failed_fetch_leaves_the_sibling_alone() {
    let mut store = store_with_feeds();
    let failed =
        store.crawl(1, fetch_failed(Fetched::Failed { cause: s("down") }), 50).unwrap();
    assert_eq!(failed.status(), CrawlStatus::FetchFailed);
    assert_eq!(store.feed(2).unwrap().last_crawl, None);
    let sibling = store.crawl(2, ok(3), 50).unwrap();
    assert_eq!(sibling, CrawlReport { feed_id: 2, new_entries: 3, failure: None });
    assert_eq!(store.feed(1).unwrap().last_crawl.unwrap().at, 50);
}

#[test]
fn crawl_of_a_missing_feed_is_not_found() {
    let mut store = store_with_feeds();
    assert_eq!(store.crawl(7, ok(1), 1), Err(Error::NotFound(Subject::Feed(7))));
    assert_eq!(store.entry_count(), 0);
}

#[test]
fn crawl_identifies_entries_by_identifier_or_link() {
    let mut store = store_with_feeds();
    let document = Document {
        title: None,
        links: vec![],
        entries: vec![
            entry("", "https://a/1"),
            entry("g2", "https://a/2"),
            entry("", "https://a/1"),
            entry("", ""),
        ],
    };
    let report = store.crawl(1, Ok(document), 77).unwrap();
    assert_eq!(report.new_entries, 2);
    let ids: Vec<String> = store.entries_of(1).into_iter().map(|e| e.external_id).collect();
    assert_eq!(ids, vec!["https://a/1", "g2"]);
    let failed =
        store.crawl(1, Err(PipelineError::Parse(ParseFailure::MissingTitle)), 78).unwrap();
    assert_eq!(failed.status(), CrawlStatus::ParseFailed);
    assert_eq!(store.entry_count(), 2);
}
