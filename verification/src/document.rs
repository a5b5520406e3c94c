//! The two ends of the fetch-parse pipeline: what the network returned for a feed's
//! address, and the structured document that a parser makes of a response body.

use crate::error::{FetchFailure, FetchFailureView};
use crate::model::{result_view, text_of, texts_of};
use vstd::prelude::*;

verus! {

/// One entry of a parsed document, before the crawl decides whether to store it.
#[derive(Debug, PartialEq, Eq)]
pub struct RawEntry {
    /// The identifier that the document gives the entry; empty where it gives none.
    pub id: String,
    /// The addresses that the entry links to, in document order.
    pub links: Vec<String>,
    pub title: Option<String>,
    /// A short summary of the entry.
    pub summary: Option<String>,
    /// The body of the entry.
    pub content: Option<String>,
    /// Seconds since the Unix epoch.
    pub published: Option<i64>,
}

/// An entry of a parsed document, with its texts as sequences of characters.
pub struct RawEntryView {
    pub id: Seq<char>,
    pub links: Seq<Seq<char>>,
    pub title: Option<Seq<char>>,
    pub summary: Option<Seq<char>>,
    pub content: Option<Seq<char>>,
    pub published: Option<i64>,
}

impl View for RawEntry {
    type V = RawEntryView;

    open spec fn view(&self) -> RawEntryView {
        RawEntryView {
            id: self.id@,
            links: texts_of(self.links@),
            title: text_of(self.title),
            summary: text_of(self.summary),
            content: text_of(self.content),
            published: self.published,
        }
    }
}

impl DeepView for RawEntry {
    type V = RawEntryView;

    open spec fn deep_view(&self) -> RawEntryView {
        self@
    }
}

/// A parsed feed document.
#[derive(Debug, PartialEq, Eq)]
pub struct Document {
    pub title: Option<String>,
    /// The addresses that the feed links to, in document order.
    pub links: Vec<String>,
    /// The entries, in document order.
    pub entries: Vec<RawEntry>,
}

/// A parsed document, with its texts as sequences of characters.
pub struct DocumentView {
    pub title: Option<Seq<char>>,
    pub links: Seq<Seq<char>>,
    pub entries: Seq<RawEntryView>,
}

impl View for Document {
    type V = DocumentView;

    open spec fn view(&self) -> DocumentView {
        DocumentView {
            title: text_of(self.title),
            links: texts_of(self.links@),
            entries: self.entries.deep_view(),
        }
    }
}

/// What the network returned for one request.
#[derive(Debug, PartialEq, Eq)]
pub enum Fetched {
    /// A response arrived, with this status code and body.
    Response { status: u16, body: Vec<u8> },
    /// No response arrived; `cause` says why.
    Failed { cause: String },
}

/// What the network returned, with the body as a sequence of bytes.
pub enum FetchedView {
    Response { status: u16, body: Seq<u8> },
    Failed { cause: Seq<char> },
}

impl View for Fetched {
    type V = FetchedView;

    open spec fn view(&self) -> FetchedView {
        match self {
            Fetched::Response { status, body } => FetchedView::Response {
                status: *status,
                body: body@,
            },
            Fetched::Failed { cause } => FetchedView::Failed { cause: cause@ },
        }
    }
}

/// Whether an HTTP status code reports success.
pub open spec fn is_success(status: u16) -> bool {
    200 <= status <= 299
}

/// The body of a successful response, or why the fetch counts as failed.
pub open spec fn response_body(fetched: FetchedView) -> Result<Seq<u8>, FetchFailureView> {
    match fetched {
        FetchedView::Failed { cause } => Err(FetchFailureView::Transport(cause)),
        FetchedView::Response { status, body } => if is_success(status) {
            Ok(body)
        } else {
            Err(FetchFailureView::Status(status))
        },
    }
}

/// Accepts a response with a 2xx status and hands out its body; anything else is a
/// fetch failure.
pub fn body_of(fetched: Fetched) -> (r: Result<Vec<u8>, FetchFailure>)
    ensures
        result_view(r) == response_body(fetched@),
{
    match fetched {
        Fetched::Failed { cause } => Err(FetchFailure::Transport(cause)),
        Fetched::Response { status, body } => {
            if 200 <= status && status <= 299 {
                Ok(body)
            } else {
                Err(FetchFailure::Status(status))
            }
        },
    }
}

/// Whether `k` is the position of the first of `links` that differs from `url`.
pub open spec fn is_first_other(links: Seq<Seq<char>>, url: Seq<char>, k: int) -> bool {
    &&& 0 <= k < links.len()
    &&& links[k] != url
    &&& forall|j: int| 0 <= j < k ==> #[trigger] links[j] == url
}

/// The address of a feed's site: the first of the document's links that differs from
/// the subscription address, or that address itself where none differs.
pub open spec fn canonical(links: Seq<Seq<char>>, url: Seq<char>) -> Seq<char> {
    if exists|k: int| is_first_other(links, url, k) {
        links[choose|k: int| is_first_other(links, url, k)]
    } else {
        url
    }
}

/// Chooses the address of a feed's site among the links of its document.
pub fn canonical_link(links: &Vec<String>, url: &String) -> (link: String)
    ensures
        link@ == canonical(texts_of(links@), url@),
{
    let ghost texts = texts_of(links@);
    let mut i: usize = 0;
    while i < links.len()
        invariant
            i <= links.len(),
            texts == texts_of(links@),
            forall|j: int| 0 <= j < i ==> #[trigger] texts[j] == url@,
        decreases links.len() - i,
    {
        if !(links[i] == *url) {
            proof {
                assert(is_first_other(texts, url@, i as int));
                let k = choose|k: int| is_first_other(texts, url@, k);
                assert(k == i);
            }
            return links[i].clone();
        }
        i += 1;
    }
    url.clone()
}

/// The identity of an entry within its feed: the identifier that the document gives
/// it; where it gives none, the entry's first link; none where that is missing too.
pub open spec fn identity(entry: RawEntryView) -> Option<Seq<char>> {
    if entry.id.len() > 0 {
        Some(entry.id)
    } else if entry.links.len() > 0 && entry.links[0].len() > 0 {
        Some(entry.links[0])
    } else {
        None
    }
}

/// Computes the identity of an entry within its feed.
pub fn entry_identity(entry: &RawEntry) -> (key: Option<String>)
    ensures
        text_of(key) == identity(entry@),
{
    if !entry.id.as_str().is_empty() {
        Some(entry.id.clone())
    } else if entry.links.len() > 0 && !entry.links[0].as_str().is_empty() {
        Some(entry.links[0].clone())
    } else {
        None
    }
}

} // verus!
