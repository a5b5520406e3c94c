use lares::cli::{
    Added, Credential, Deleted, FeedCommand, GroupCommand, Options, Output, Pending, ServerPlan,
    Shown, Step, SubCommand,
};
use lares::crawl::CrawlReport;
use lares::document::{body_of, Document, Fetched, RawEntry};
use lares::error::{
    Error, ErrorKind, FetchFailure, ParseFailure, PipelineError, StoreFault, Subject,
};
use lares::model::{CrawlStatus, Feed, Group};
use lares::snapshot::Snapshot;
use lares::store::Store;
use std::path::PathBuf;

fn s(text: &str) -> String {
    text.to_string()
}

fn with_next_ids(next_feed_id: u32, next_group_id: u32) -> Store {
    Store::restore(Snapshot {
        feeds: vec![],
        groups: vec![],
        links: vec![],
        entries: vec![],
        next_feed_id,
        next_group_id,
    })
    .unwrap()
}

fn atom(title: Option<&str>, links: &[&str], entries: usize) -> Result<Document, PipelineError> {
    Ok(Document {
        title: title.map(s),
        links: links.iter().map(|l| s(l)).collect(),
        entries: (0..entries)
            .map(|i| RawEntry {
                id: format!("urn:p:{i}"),
                links: vec![],
                title: Some(format!("P{i}")),
                summary: None,
                content: None,
                published: None,
            })
            .collect(),
    })
}

fn failed(fetched: Fetched) -> Result<Document, PipelineError> {
    Err(PipelineError::Fetch(body_of(fetched).unwrap_err()))
}

fn document(title: Option<&str>, links: &[&str]) -> Document {
    Document {
        title: title.map(s),
        links: links.iter().map(|l| s(l)).collect(),
        entries: vec![RawEntry {
            id: s("e1"),
            links: vec![],
            title: None,
            summary: None,
            content: None,
            published: None,
        }],
    }
}

const URL: &str = "https://example.com/feed.xml";

#[test]
fn added_feed_falls_back_to_its_own_address() {
    let mut store = Store::new();
    let added = FeedCommand::add(&mut store, s(URL), None, atom(Some("Example Blog"), &[URL], 0))
        .unwrap();
    let expected = Feed {
        id: 1,
        title: s("Example Blog"),
        url: s(URL),
        link: s(URL),
        last_crawl: None,
    };
    assert_eq!(added, Added { feed: expected.clone(), group: None });
    assert_eq!(store.feeds(), vec![expected]);
}

#[test]
fn added_feed_without_links_falls_back_to_its_own_address() {
    let mut store = Store::new();
    let added =
        FeedCommand::add(&mut store, s(URL), None, atom(Some("Example Blog"), &[], 3)).unwrap();
    assert_eq!(added.feed.title, "Example Blog");
    assert_eq!(added.feed.link, URL);
    assert_eq!(store.entry_count(), 0);
}

#[test]
fn added_feed_takes_title_and_link_from_the_document() {
    let mut store = Store::new();
    let fetched = atom(Some("Example Blog"), &[URL, "https://example.com/blog"], 0);
    let added = FeedCommand::add(&mut store, s(URL), None, fetched).unwrap();
    assert_eq!(added.feed.title, "Example Blog");
    assert_eq!(added.feed.link, "https://example.com/blog");
    assert_eq!(added.feed.url, URL);
}

#[test]
fn adding_an_address_twice_fails_the_second_time() {
    let mut store = Store::new();
    FeedCommand::add(&mut store, s(URL), None, atom(Some("Example Blog"), &[], 0)).unwrap();
    let again = FeedCommand::add(&mut store, s(URL), None, atom(Some("Other"), &[], 0));
    assert_eq!(again, Err(Error::AlreadyExists(Subject::FeedUrl(s(URL)))));
    let unreachable =
        FeedCommand::add(&mut store, s(URL), None, failed(Fetched::Failed { cause: s("x") }));
    assert_eq!(unreachable, Err(Error::AlreadyExists(Subject::FeedUrl(s(URL)))));
    assert_eq!(store.feeds().len(), 1);
    assert_eq!(store.feeds()[0].title, "Example Blog");
}

#[test]
fn add_reports_a_failed_fetch() {
    let mut store = Store::new();
    let result = FeedCommand::add(
        &mut store,
        s(URL),
        None,
        failed(Fetched::Response { status: 503, body: vec![] }),
    );
    assert_eq!(
        result,
        Err(Error::FetchError { url: s(URL), failure: FetchFailure::Status(503) })
    );
    assert_eq!(result.unwrap_err().kind(), ErrorKind::FetchError);
    let result =
        FeedCommand::add(&mut store, s(URL), None, failed(Fetched::Failed { cause: s("dns") }));
    assert_eq!(
        result,
        Err(Error::FetchError { url: s(URL), failure: FetchFailure::Transport(s("dns")) })
    );
    assert!(store.feeds().is_empty());
}

#[test]
fn add_reports_an_invalid_document() {
    let mut store = Store::new();
    let result = FeedCommand::add(
        &mut store,
        s(URL),
        None,
        Err(PipelineError::Parse(ParseFailure::Malformed(s("no root element")))),
    );
    assert_eq!(
        result,
        Err(Error::ParseError {
            url: s(URL),
            reason: ParseFailure::Malformed(s("no root element"))
        })
    );
    assert_eq!(result.unwrap_err().kind(), ErrorKind::ParseError);
    assert!(store.feeds().is_empty());
}

#[test]
fn add_needs_a_title() {
    let mut store = Store::new();
    let result = FeedCommand::add(&mut store, s(URL), None, atom(None, &[], 1));
    assert_eq!(
        result,
        Err(Error::ParseError { url: s(URL), reason: ParseFailure::MissingTitle })
    );
    let result = FeedCommand::add(&mut store, s(URL), None, Ok(document(None, &[])));
    assert_eq!(
        result,
        Err(Error::ParseError { url: s(URL), reason: ParseFailure::MissingTitle })
    );
    assert!(store.feeds().is_empty());
}

#[test]
fn add_fails_when_ids_are_exhausted() {
    let mut store = with_next_ids(u32::MAX, 1);
    let result =
        FeedCommand::add(&mut store, s(URL), None, Ok(document(Some("T"), &[])));
    assert_eq!(result, Err(Error::StoreError(StoreFault::FeedIdsExhausted)));
}

#[test]
fn add_links_the_feed_to_the_named_group() {
    let mut store = Store::new();
    let news = GroupCommand::add(&mut store, s("news")).unwrap();
    let added = FeedCommand::add(
        &mut store,
        s(URL),
        Some(s("news")),
        Ok(document(Some("T"), &["https://example.com/"])),
    )
    .unwrap();
    assert_eq!(added.group, Some(Group { id: news.id, title: s("news") }));
    assert_eq!(added.feed.link, "https://example.com/");
    assert!(store.is_linked(added.feed.id, news.id));
}

#[test]
fn add_keeps_the_feed_when_the_group_is_missing() {
    let mut store = Store::new();
    let result = FeedCommand::add(
        &mut store,
        s(URL),
        Some(s("news")),
        Ok(document(Some("T"), &[])),
    );
    assert_eq!(result, Err(Error::NotFound(Subject::GroupTitle(s("news")))));
    assert_eq!(store.feeds().len(), 1);
    assert_eq!(store.feed_by_url(&s(URL)).unwrap().title, "T");
}

#[test]
fn add_passes_a_pipeline_failure_on() {
    let mut store = Store::new();
    let result = FeedCommand::add(
        &mut store,
        s(URL),
        None,
        Err(PipelineError::Fetch(FetchFailure::Status(500))),
    );
    assert_eq!(
        result,
        Err(Error::FetchError { url: s(URL), failure: FetchFailure::Status(500) })
    );
}

#[test]
fn feed_commands_run_in_two_steps() {
    let mut store = Store::new();
    let step = FeedCommand::Add { url: s(URL), group: None }.run(&mut store).unwrap();
    let pending = match step {
        Step::Fetch(pending) => pending,
        other => panic!("unexpected step: {:?}", other),
    };
    assert_eq!(pending, Pending::Add { url: s(URL), group: None });
    assert_eq!(pending.url(), URL);
    assert!(store.feeds().is_empty());
    let output = pending.resume(&mut store, atom(Some("Example Blog"), &[], 2), 5).unwrap();
    match output {
        Output::FeedAdded(added) => assert_eq!(added.feed.id, 1),
        other => panic!("unexpected output: {:?}", other),
    }
    let again = FeedCommand::Add { url: s(URL), group: None }.run(&mut store);
    assert_eq!(again, Err(Error::AlreadyExists(Subject::FeedUrl(s(URL)))));

    let step = FeedCommand::Crawl { id: 1 }.run(&mut store).unwrap();
    assert_eq!(step, Step::Fetch(Pending::Crawl { id: 1, url: s(URL) }));
    let pending = match step {
        Step::Fetch(pending) => pending,
        other => panic!("unexpected step: {:?}", other),
    };
    let output = pending.resume(&mut store, atom(Some("Example Blog"), &[], 2), 9).unwrap();
    assert_eq!(output, Output::Crawled(CrawlReport { feed_id: 1, new_entries: 2, failure: None }));
    assert_eq!(store.feed(1).unwrap().last_crawl.unwrap().at, 9);

    assert_eq!(
        FeedCommand::Crawl { id: 4 }.run(&mut store),
        Err(Error::NotFound(Subject::Feed(4)))
    );
}

#[test]
fn feed_list_and_delete_finish_at_once() {
    let mut store = Store::new();
    FeedCommand::add(&mut store, s(URL), None, Ok(document(Some("T"), &[]))).unwrap();
    let listed = FeedCommand::List.run(&mut store).unwrap();
    match listed {
        Step::Done(Output::Feeds(feeds)) => {
            assert_eq!(feeds, FeedCommand::list(&store));
            assert_eq!(feeds.len(), 1);
        }
        other => panic!("unexpected step: {:?}", other),
    }
    let deleted = FeedCommand::Delete { id: 1 }.run(&mut store).unwrap();
    match deleted {
        Step::Done(Output::FeedDeleted(feed)) => assert_eq!(feed.url, URL),
        other => panic!("unexpected step: {:?}", other),
    }
    assert_eq!(
        FeedCommand::Delete { id: 1 }.run(&mut store),
        Err(Error::NotFound(Subject::Feed(1)))
    );
    assert_eq!(FeedCommand::delete(&mut store, 1), Err(Error::NotFound(Subject::Feed(1))));
}

#[test]
fn manual_crawl_reports_like_the_run_loop() {
    let mut store = Store::new();
    FeedCommand::add(&mut store, s(URL), None, Ok(document(Some("T"), &[]))).unwrap();
    let report = FeedCommand::crawl(&mut store, 1, atom(Some("T"), &[], 5), 1).unwrap();
    assert_eq!(report.new_entries, 5);
    let report = FeedCommand::crawl(&mut store, 1, atom(Some("T"), &[], 5), 2).unwrap();
    assert_eq!(report.new_entries, 0);
    let report = FeedCommand::crawl(
        &mut store,
        1,
        failed(Fetched::Response { status: 500, body: vec![] }),
        3,
    )
    .unwrap();
    assert_eq!(report.status(), CrawlStatus::FetchFailed);
    assert_eq!(store.feed(1).unwrap().last_crawl.unwrap().at, 3);
    assert_eq!(store.entry_count(), 5);
}

#[test]
fn group_add_feed_links_by_title() {
    let mut store = Store::new();
    FeedCommand::add(&mut store, s(URL), None, Ok(document(Some("T"), &[]))).unwrap();
    let news = GroupCommand::add(&mut store, s("news")).unwrap();
    assert_eq!(GroupCommand::add_feed(&mut store, 1, s("news")), Ok(()));
    assert_eq!(GroupCommand::add_feed(&mut store, 1, s("news")), Ok(()));
    assert_eq!(store.members(news.id).feed_ids, vec![1]);
    assert_eq!(
        GroupCommand::add_feed(&mut store, 1, s("tech")),
        Err(Error::NotFound(Subject::GroupTitle(s("tech"))))
    );
    assert_eq!(
        GroupCommand::add_feed(&mut store, 2, s("news")),
        Err(Error::NotFound(Subject::Feed(2)))
    );
    assert_eq!(
        GroupCommand::add_feed(&mut store, 2, s("tech")),
        Err(Error::NotFound(Subject::GroupTitle(s("tech"))))
    );
}

#[test]
fn deleting_a_group_with_feeds_warns_and_keeps_the_feeds() {
    let mut store = Store::new();
    FeedCommand::add(&mut store, s(URL), None, Ok(document(Some("T"), &[]))).unwrap();
    FeedCommand::crawl(&mut store, 1, atom(Some("T"), &[], 2), 1).unwrap();
    GroupCommand::add(&mut store, s("news")).unwrap();
    GroupCommand::add(&mut store, s("empty")).unwrap();
    GroupCommand::add_feed(&mut store, 1, s("news")).unwrap();
    let deleted = GroupCommand::delete(&mut store, s("news")).unwrap();
    assert_eq!(deleted, Deleted { group: Group { id: 1, title: s("news") }, had_feeds: true });
    assert_eq!(store.feeds().len(), 1);
    assert_eq!(store.entries_of(1).len(), 2);
    assert!(!store.is_linked(1, 1));
    assert_eq!(store.group_by_title(&s("news")), None);
    let deleted = GroupCommand::delete(&mut store, s("empty")).unwrap();
    assert!(!deleted.had_feeds);
    assert_eq!(
        GroupCommand::delete(&mut store, s("news")),
        Err(Error::NotFound(Subject::GroupTitle(s("news"))))
    );
}

#[test]
fn group_show_lists_the_feeds_of_the_group() {
    let mut store = Store::new();
    FeedCommand::add(&mut store, s(URL), None, Ok(document(Some("T"), &[]))).unwrap();
    FeedCommand::add(&mut store, s("https://b/feed"), None, Ok(document(Some("B"), &[])))
        .unwrap();
    GroupCommand::add(&mut store, s("news")).unwrap();
    GroupCommand::add_feed(&mut store, 2, s("news")).unwrap();
    let shown = GroupCommand::show(&store, s("news")).unwrap();
    assert_eq!(shown.group.title, "news");
    assert_eq!(shown.feeds.len(), 1);
    assert_eq!(shown.feeds[0].title, "B");
    assert_eq!(
        GroupCommand::show(&store, s("tech")),
        Err(Error::NotFound(Subject::GroupTitle(s("tech"))))
    );
}

#[test]
fn group_commands_run() {
    let mut store = Store::new();
    FeedCommand::add(&mut store, s(URL), None, Ok(document(Some("T"), &[]))).unwrap();
    assert_eq!(
        GroupCommand::Add { name: s("news") }.run(&mut store),
        Ok(Output::GroupAdded(Group { id: 1, title: s("news") }))
    );
    assert_eq!(
        GroupCommand::Add { name: s("news") }.run(&mut store),
        Err(Error::AlreadyExists(Subject::GroupTitle(s("news"))))
    );
    assert_eq!(
        GroupCommand::List.run(&mut store),
        Ok(Output::Groups(vec![Group { id: 1, title: s("news") }]))
    );
    assert_eq!(GroupCommand::list(&store).len(), 1);
    assert_eq!(
        GroupCommand::AddFeed { id: 1, group: s("news") }.run(&mut store),
        Ok(Output::FeedLinked)
    );
    match (GroupCommand::Show { name: s("news") }).run(&mut store) {
        Ok(Output::GroupShown(Shown { group, feeds })) => {
            assert_eq!(group.id, 1);
            assert_eq!(feeds.len(), 1);
        }
        other => panic!("unexpected output: {:?}", other),
    }
    assert_eq!(
        GroupCommand::Delete { name: s("news") }.run(&mut store),
        Ok(Output::GroupDeleted(Deleted {
            group: Group { id: 1, title: s("news") },
            had_feeds: true
        }))
    );
}

#[test]
fn server_asks_for_a_credential_only_when_both_parts_are_given() {
    let both = Options::server(s("127.0.0.1"), 4000, Some(s("me")), Some(s("secret")));
    assert_eq!(
        both,
        ServerPlan {
            host: s("127.0.0.1"),
            port: 4000,
            credential: Some(Credential { username: s("me"), password: s("secret") }),
        }
    );
    assert_eq!(Options::server(s("h"), 1, Some(s("me")), None).credential, None);
    assert_eq!(Options::server(s("h"), 1, None, Some(s("secret"))).credential, None);
    assert_eq!(Options::server(s("h"), 1, None, None).credential, None);
}

#[test]
fn options_run_dispatches_on_the_command() {
    let serve = Options::new(
        PathBuf::from("lares.db"),
        SubCommand::Server { host: s("0.0.0.0"), port: 8080, username: None, password: None },
    );
    assert_eq!(serve.database(), &PathBuf::from("lares.db"));
    assert!(matches!(serve.command(), SubCommand::Server { .. }));
    let (store, step) = serve.run(Ok(Store::new())).unwrap();
    assert_eq!(step, Step::Serve(ServerPlan { host: s("0.0.0.0"), port: 8080, credential: None }));
    let add_group =
        Options::new(PathBuf::from("x"), SubCommand::Group(GroupCommand::Add { name: s("g") }));
    let (store, step) = add_group.run(Ok(store)).unwrap();
    assert_eq!(step, Step::Done(Output::GroupAdded(Group { id: 1, title: s("g") })));
    assert_eq!(store.groups().len(), 1);
    let add_feed = Options::new(
        PathBuf::from("x"),
        SubCommand::Feed(FeedCommand::Add { url: s(URL), group: Some(s("g")) }),
    );
    let (store, step) = add_feed.run(Ok(store)).unwrap();
    assert_eq!(step, Step::Fetch(Pending::Add { url: s(URL), group: Some(s("g")) }));
    let missing =
        Options::new(PathBuf::from("x"), SubCommand::Group(GroupCommand::Show { name: s("h") }));
    assert_eq!(
        missing.run(Ok(store)).err(),
        Some(Error::NotFound(Subject::GroupTitle(s("h"))))
    );
}

#[test]
fn options_run_fails_before_the_command_when_the_database_is_unavailable() {
    let add_group =
        Options::new(PathBuf::from("x"), SubCommand::Group(GroupCommand::Add { name: s("g") }));
    assert_eq!(
        add_group.run(Err(Error::StoreError(StoreFault::Unavailable))).err(),
        Some(Error::StoreError(StoreFault::Unavailable))
    );
    let list = Options::new(PathBuf::from("x"), SubCommand::Feed(FeedCommand::List));
    assert_eq!(
        list.run(Err(Error::StoreError(StoreFault::ConstraintViolated))).err(),
        Some(Error::StoreError(StoreFault::ConstraintViolated))
    );
}

#[test]
fn the_failure_of_the_listener_comes_before_that_of_the_run_loop() {
    assert_eq!(Options::served::<u8>(Ok(()), Ok(())), Ok(()));
    assert_eq!(Options::served(Err(1), Ok(())), Err(1));
    assert_eq!(Options::served(Ok(()), Err(2)), Err(2));
    assert_eq!(Options::served(Err(1), Err(2)), Err(1));
}

#[test]
fn server_listens_on_host_and_port() {
    assert_eq!(Options::server(s("127.0.0.1"), 4000, None, None).address(), "127.0.0.1:4000");
    assert_eq!(Options::server(s("::1"), 0, None, None).address(), "::1:0");
    assert_eq!(
        Options::server(s("example.org"), u32::MAX, None, None).address(),
        "example.org:4294967295"
    );
}

#[test]
fn server_admits_the_client_with_the_credential_asked_for() {
    let open = Options::server(s("h"), 1, None, None);
    assert!(open.admits(&None));
    assert!(open.admits(&Some(Credential { username: s("x"), password: s("y") })));
    let closed = Options::server(s("h"), 1, Some(s("me")), Some(s("secret")));
    assert!(closed.admits(&Some(Credential { username: s("me"), password: s("secret") })));
    assert!(!closed.admits(&Some(Credential { username: s("me"), password: s("guess") })));
    assert!(!closed.admits(&Some(Credential { username: s("you"), password: s("secret") })));
    assert!(!closed.admits(&None));
}
