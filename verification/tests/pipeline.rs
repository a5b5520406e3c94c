use lares::document::{body_of, canonical_link, entry_identity, Document, Fetched, RawEntry};
use lares::error::FetchFailure;

fn raw(id: &str, links: &[&str]) -> RawEntry {
    RawEntry {
        id: id.to_string(),
        links: links.iter().map(|l| l.to_string()).collect(),
        title: None,
        summary: None,
        content: None,
        published: None,
    }
}

fn links(all: &[&str]) -> Vec<String> {
    all.iter().map(|l| l.to_string()).collect()
}

#[test]
fn body_of_accepts_the_2xx_range_only() {
    assert_eq!(body_of(Fetched::Response { status: 200, body: vec![1, 2] }), Ok(vec![1, 2]));
    assert_eq!(body_of(Fetched::Response { status: 299, body: vec![] }), Ok(vec![]));
    assert_eq!(
        body_of(Fetched::Response { status: 199, body: vec![1] }),
        Err(FetchFailure::Status(199))
    );
    assert_eq!(
        body_of(Fetched::Response { status: 300, body: vec![1] }),
        Err(FetchFailure::Status(300))
    );
    assert_eq!(
        body_of(Fetched::Response { status: 500, body: vec![1] }),
        Err(FetchFailure::Status(500))
    );
}

#[test]
fn body_of_reports_a_response_that_did_not_arrive() {
    assert_eq!(
        body_of(Fetched::Failed { cause: "timed out".to_string() }),
        Err(FetchFailure::Transport("timed out".to_string()))
    );
}

#[test]
fn canonical_link_is_the_first_link_that_differs() {
    let url = "https://example.com/feed.xml".to_string();
    assert_eq!(
        canonical_link(&links(&["https://example.com/feed.xml", "https://a/", "https://b/"]), &url),
        "https://a/"
    );
    assert_eq!(canonical_link(&links(&["https://a/", "https://b/"]), &url), "https://a/");
    assert_eq!(
        canonical_link(
            &links(&["https://example.com/feed.xml", "https://example.com/feed.xml", "https://b/"]),
            &url
        ),
        "https://b/"
    );
}

#[test]
fn canonical_link_falls_back_to_the_address() {
    let url = "https://example.com/feed.xml".to_string();
    assert_eq!(canonical_link(&links(&[]), &url), url);
    assert_eq!(canonical_link(&links(&["https://example.com/feed.xml"]), &url), url);
}

#[test]
fn identity_prefers_the_identifier() {
    assert_eq!(entry_identity(&raw("guid-1", &["https://a/1"])), Some("guid-1".to_string()));
    assert_eq!(entry_identity(&raw("guid-1", &[])), Some("guid-1".to_string()));
}

#[test]
fn identity_falls_back_to_the_first_link() {
    assert_eq!(
        entry_identity(&raw("", &["https://a/1", "https://a/2"])),
        Some("https://a/1".to_string())
    );
}

#[test]
fn identity_is_missing_without_identifier_and_link() {
    assert_eq!(entry_identity(&raw("", &[])), None);
    assert_eq!(entry_identity(&raw("", &["", "https://a/2"])), None);
}

#[test]
fn documents_compare_by_content() {
    let a = Document { title: None, links: vec![], entries: vec![raw("x", &[])] };
    let b = Document { title: None, links: vec![], entries: vec![raw("x", &[])] };
    assert_eq!(a, b);
}
