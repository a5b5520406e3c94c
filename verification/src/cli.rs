//! The management commands: what each of them does to a store and what it has to show
//! for it. Reading arguments, fetching documents, printing and serving are the
//! caller's part; a command that needs a document says so and is resumed with it.

use crate::crawl::CrawlReport;
use crate::document::{canonical, canonical_link, Document, DocumentView};
use crate::error::{
    pipeline_error, Error, ErrorView, ParseFailure, ParseFailureView, PipelineError,
    PipelineErrorView, StoreFault, Subject, SubjectView,
};
use crate::model::{clone_text, result_view, text_of, Feed, FeedView, Group, GroupView};
use crate::store::Store;
use crate::store_view::{lemma_filter_member, link_outside_group, StoreView};
use crate::table::{decimal, digits};
use std::path::PathBuf;
use vstd::prelude::*;
use vstd::string::StringExecFns;

verus! {

/// A path in the file system, as `std` holds it. Nothing of its contents is specified.
#[verifier::external_type_specification]
#[verifier::external_body]
pub struct ExPathBuf(PathBuf);

/// The commands on feeds.
#[derive(Debug, PartialEq, Eq)]
pub enum FeedCommand {
    /// Lists all feeds.
    List,
    /// Adds a new feed, and links it to a group where one is named.
    Add { url: String, group: Option<String> },
    /// Deletes a feed.
    Delete { id: u32 },
    /// Crawls a feed now.
    Crawl { id: u32 },
}

/// The commands on groups.
#[derive(Debug, PartialEq, Eq)]
pub enum GroupCommand {
    /// Lists all groups.
    List,
    /// Adds a group.
    Add { name: String },
    /// Adds a feed to a group.
    AddFeed { id: u32, group: String },
    /// Deletes a group.
    Delete { name: String },
    /// Shows the feeds of a group.
    Show { name: String },
}

/// The commands of the program.
#[derive(Debug, PartialEq, Eq)]
pub enum SubCommand {
    /// Manages feeds.
    Feed(FeedCommand),
    /// Manages groups.
    Group(GroupCommand),
    /// Starts the server and the run-loop.
    Server { host: String, port: u32, username: Option<String>, password: Option<String> },
}

/// What the program was asked to do, and on which database.
#[derive(Debug, PartialEq, Eq)]
pub struct Options {
    database: PathBuf,
    command: SubCommand,
}

/// A feed that was added, and the group it was linked to, if one was named.
#[derive(Debug, PartialEq, Eq)]
pub struct Added {
    pub feed: Feed,
    pub group: Option<Group>,
}

/// An added feed and its group, with their texts as sequences of characters.
pub struct AddedView {
    pub feed: FeedView,
    pub group: Option<GroupView>,
}

impl View for Added {
    type V = AddedView;

    open spec fn view(&self) -> AddedView {
        AddedView {
            feed: self.feed@,
            group: match self.group {
                Some(group) => Some(group@),
                None => None,
            },
        }
    }
}

/// A group that was deleted.
#[derive(Debug, PartialEq, Eq)]
pub struct Deleted {
    pub group: Group,
    /// Whether feeds still belonged to the group, which calls for a warning.
    pub had_feeds: bool,
}

/// A group and its feeds.
#[derive(Debug, PartialEq, Eq)]
pub struct Shown {
    pub group: Group,
    pub feeds: Vec<Feed>,
}

/// The name and the password that the server asks of its clients.
#[derive(Debug, PartialEq, Eq)]
pub struct Credential {
    pub username: String,
    pub password: String,
}

/// Where the server listens and what it asks of its clients.
#[derive(Debug, PartialEq, Eq)]
pub struct ServerPlan {
    pub host: String,
    pub port: u32,
    pub credential: Option<Credential>,
}

impl ServerPlan {
    /// Whether a client may be served that presents `presented`: every client where
    /// the server asks for no credential, else the client that presents the name and
    /// the password asked for.
    pub open spec fn admitted(self, presented: Option<Credential>) -> bool {
        match self.credential {
            None => true,
            Some(asked) => presented matches Some(given) && given.username@ == asked.username@
                && given.password@ == asked.password@,
        }
    }

    /// The address to listen on: the host, a colon, and the port as a decimal numeral.
    pub open spec fn address_text(self) -> Seq<char> {
        self.host@ + seq![':'] + digits(self.port as nat)
    }

    /// Writes the address to listen on.
    pub fn address(&self) -> (text: String)
        ensures
            text@ == self.address_text(),
    {
        let mut text = self.host.clone();
        proof {
            reveal_strlit(":");
        }
        text.append(":");
        let port = decimal(self.port);
        text.append(port.as_str());
        assert(text@ =~= self.address_text());
        text
    }

    /// Tells whether a client may be served that presents `presented`.
    pub fn admits(&self, presented: &Option<Credential>) -> (yes: bool)
        ensures
            yes == self.admitted(*presented),
    {
        match &self.credential {
            None => true,
            Some(asked) => match presented {
                Some(given) => given.username == asked.username && given.password
                    == asked.password,
                None => false,
            },
        }
    }
}

/// What a finished command has to show.
#[derive(Debug, PartialEq, Eq)]
pub enum Output {
    Feeds(Vec<Feed>),
    FeedAdded(Added),
    FeedDeleted(Feed),
    Crawled(CrawlReport),
    Groups(Vec<Group>),
    GroupAdded(Group),
    FeedLinked,
    GroupDeleted(Deleted),
    GroupShown(Shown),
}

/// A command that waits for the document of a feed.
#[derive(Debug, PartialEq, Eq)]
pub enum Pending {
    /// A feed is to be added from the document at `url`.
    Add { url: String, group: Option<String> },
    /// The feed `id` is to be crawled; its document is at `url`.
    Crawl { id: u32, url: String },
}

/// How far a command got.
#[derive(Debug, PartialEq, Eq)]
pub enum Step {
    /// The command is finished.
    Done(Output),
    /// The command needs the document at the pending command's address; it goes on
    /// with [`Pending::resume`].
    Fetch(Pending),
    /// The server and the run-loop are to be started.
    Serve(ServerPlan),
}

/// What adding a feed makes of a store, and what it returns.
///
/// The address must be new. The title of the feed is the title of the document, and
/// its link is chosen among the document's links; the caller supplies neither. Where a
/// group is named, the feed is created first and then linked to it; a group that does
/// not exist is reported after the feed was created.
pub open spec fn add_outcome(
    store: StoreView,
    url: Seq<char>,
    group: Option<Seq<char>>,
    outcome: Result<DocumentView, PipelineErrorView>,
) -> (StoreView, Result<AddedView, ErrorView>) {
    if store.has_url(url) {
        (store, Err(ErrorView::AlreadyExists(SubjectView::FeedUrl(url))))
    } else {
        match outcome {
            Err(error) => (store, Err(pipeline_error(url, error))),
            Ok(document) => match document.title {
                None => (
                    store,
                    Err(ErrorView::ParseError { url, reason: ParseFailureView::MissingTitle }),
                ),
                Some(title) => if store.next_feed_id == u32::MAX {
                    (store, Err(ErrorView::StoreError(StoreFault::FeedIdsExhausted)))
                } else {
                    let created = store.with_feed(title, url, canonical(document.links, url));
                    let feed = created.feeds.last();
                    match group {
                        None => (created, Ok(AddedView { feed, group: None })),
                        Some(name) => if created.has_title(name) {
                            let found = created.group_titled(name);
                            (
                                created.with_link(feed.id, found.id),
                                Ok(AddedView { feed, group: Some(found) }),
                            )
                        } else {
                            (created, Err(ErrorView::NotFound(SubjectView::GroupTitle(name))))
                        },
                    }
                },
            },
        }
    }
}

/// Adding a feed twice under the same address fails the second time with
/// `AlreadyExists`, whatever group and document the second attempt comes with; and a
/// feed that was added has the address it was added under, the title of its document
/// and the link chosen among the document's links.
pub proof fn law_second_add_rejected(
    store: StoreView,
    url: Seq<char>,
    group: Option<Seq<char>>,
    outcome: Result<DocumentView, PipelineErrorView>,
    again_group: Option<Seq<char>>,
    again_outcome: Result<DocumentView, PipelineErrorView>,
)
    requires
        store.wf(),
    ensures
        ({
            let (after, first) = add_outcome(store, url, group, outcome);
            first matches Ok(added) ==> {
                &&& outcome matches Ok(document)
                &&& document.title == Some(added.feed.title)
                &&& added.feed.link == canonical(document.links, url)
                &&& added.feed.url == url
                &&& after.has_url(url)
                &&& add_outcome(after, url, again_group, again_outcome) == (
                    after,
                    Err::<AddedView, ErrorView>(
                        ErrorView::AlreadyExists(SubjectView::FeedUrl(url)),
                    ),
                )
            }
        }),
{
    let (after, first) = add_outcome(store, url, group, outcome);
    if first is Ok {
        let document = outcome->Ok_0;
        let created = store.with_feed(document.title->0, url, canonical(document.links, url));
        assert(created.feeds.last().url == url);
        assert(after.feeds == created.feeds);
    }
}

/// Deleting a group that still has feeds deletes the group and its links and nothing
/// else: every feed and every entry is still there, and the store stays consistent.
pub proof fn law_group_delete_keeps_feeds(store: StoreView, name: Seq<char>)
    requires
        store.wf(),
        store.has_title(name),
    ensures
        ({
            let id = store.group_titled(name).id;
            let after = store.without_group(id);
            &&& after.wf()
            &&& after.feeds == store.feeds
            &&& after.entries == store.entries
            &&& !after.has_group(id)
            &&& forall|k: int| 0 <= k < after.links.len() ==> (#[trigger] after.links[k]).group_id != id
        }),
{
    let id = store.group_titled(name).id;
    store.lemma_group_position(store.title_index(name));
    store.lemma_without_group(id);
    let after = store.without_group(id);
    assert forall|k: int| 0 <= k < after.links.len() implies (#[trigger] after.links[k]).group_id
        != id by {
        lemma_filter_member(store.links, link_outside_group(id), k);
    }
}

impl FeedCommand {
    /// All feeds, in the order of their creation.
    pub fn list(store: &Store) -> (feeds: Vec<Feed>)
        ensures
            feeds.deep_view() == store@.feeds,
    {
        store.feeds()
    }

    /// Adds a feed, given what the fetch-parse pipeline made of its address: the
    /// document gives the feed its title and its link. See [`add_outcome`].
    pub fn add(
        store: &mut Store,
        url: String,
        group: Option<String>,
        outcome: Result<Document, PipelineError>,
    ) -> (r: Result<Added, Error>)
        requires
            old(store).wf(),
        ensures
            final(store).wf(),
            (final(store)@, result_view(r)) == add_outcome(
                old(store)@,
                url@,
                text_of(group),
                result_view(outcome),
            ),
    {
        if store.feed_by_url(&url).is_some() {
            return Err(Error::AlreadyExists(Subject::FeedUrl(url)));
        }
        let document = match outcome {
            Ok(document) => document,
            Err(error) => {
                return Err(Error::of_pipeline(url, error));
            },
        };
        let title = match clone_text(&document.title) {
            Some(title) => title,
            None => {
                return Err(Error::ParseError { url, reason: ParseFailure::MissingTitle });
            },
        };
        let link = canonical_link(&document.links, &url);
        let feed = match store.create_feed(title, url, link) {
            Ok(feed) => feed,
            Err(e) => {
                return Err(e);
            },
        };
        match group {
            None => Ok(Added { feed, group: None }),
            Some(name) => match store.group_by_title(&name) {
                None => Err(Error::NotFound(Subject::GroupTitle(name))),
                Some(found) => {
                    proof {
                        store@.lemma_group_position(store@.title_index(name@));
                        store@.lemma_feed_position(store@.feeds.len() - 1);
                    }
                    match store.link(feed.id, found.id) {
                        Ok(_) => Ok(Added { feed, group: Some(found) }),
                        Err(e) => Err(e),
                    }
                },
            },
        }
    }

    /// Deletes a feed together with its entries and its links, and returns it.
    pub fn delete(store: &mut Store, id: u32) -> (r: Result<Feed, Error>)
        requires
            old(store).wf(),
        ensures
            final(store).wf(),
            match r {
                Ok(feed) => {
                    &&& old(store)@.has_feed(id)
                    &&& feed@ == old(store)@.feed(id)
                    &&& final(store)@ == old(store)@.without_feed(id)
                },
                Err(e) => {
                    &&& !old(store)@.has_feed(id)
                    &&& final(store)@ == old(store)@
                    &&& e@ == ErrorView::NotFound(SubjectView::Feed(id))
                },
            },
    {
        store.delete_feed(id)
    }

    /// Crawls a feed at time `now`, given what the fetch-parse pipeline made of its
    /// address. This is the crawl that the run-loop performs: see [`Store::crawl`].
    pub fn crawl(
        store: &mut Store,
        id: u32,
        outcome: Result<Document, PipelineError>,
        now: u64,
    ) -> (r: Result<CrawlReport, Error>)
        requires
            old(store).wf(),
        ensures
            final(store).wf(),
            match r {
                Ok(report) => {
                    &&& old(store)@.has_feed(id)
                    &&& final(store)@ == old(store)@.crawled(id, result_view(outcome), now)
                    &&& report@ == old(store)@.crawl_report(id, result_view(outcome), now)
                },
                Err(e) => {
                    &&& !old(store)@.has_feed(id)
                    &&& final(store)@ == old(store)@
                    &&& e@ == ErrorView::NotFound(SubjectView::Feed(id))
                },
            },
    {
        store.crawl(id, outcome, now)
    }

    /// What [`FeedCommand::run`] makes of a store and what it returns.
    ///
    /// `List` and `Delete` finish. `Add` and `Crawl` need a document: they check that
    /// the address is new, or that the feed exists, and then ask for the fetch; the
    /// store is left as it is until the command is resumed.
    pub open spec fn ran(self, before: StoreView, after: StoreView, r: Result<Step, Error>) -> bool {
        match self {
            FeedCommand::List => {
                &&& after == before
                &&& r matches Ok(Step::Done(Output::Feeds(feeds)))
                &&& feeds.deep_view() == before.feeds
            },
            FeedCommand::Add { url, group } => {
                &&& after == before
                &&& if before.has_url(url@) {
                    &&& r matches Err(e)
                    &&& e@ == ErrorView::AlreadyExists(SubjectView::FeedUrl(url@))
                } else {
                    r == Ok::<Step, Error>(Step::Fetch(Pending::Add { url, group }))
                }
            },
            FeedCommand::Delete { id } => match r {
                Ok(step) => {
                    &&& step matches Step::Done(Output::FeedDeleted(feed))
                    &&& before.has_feed(id)
                    &&& feed@ == before.feed(id)
                    &&& after == before.without_feed(id)
                },
                Err(e) => {
                    &&& !before.has_feed(id)
                    &&& after == before
                    &&& e@ == ErrorView::NotFound(SubjectView::Feed(id))
                },
            },
            FeedCommand::Crawl { id } => {
                &&& after == before
                &&& match r {
                    Ok(step) => {
                        &&& step matches Step::Fetch(Pending::Crawl { id: feed_id, url })
                        &&& feed_id == id
                        &&& before.has_feed(id)
                        &&& url@ == before.feed(id).url
                    },
                    Err(e) => {
                        &&& !before.has_feed(id)
                        &&& e@ == ErrorView::NotFound(SubjectView::Feed(id))
                    },
                }
            },
        }
    }

    /// Carries the command out as far as the store alone allows. See
    /// [`FeedCommand::ran`].
    pub fn run(self, store: &mut Store) -> (r: Result<Step, Error>)
        requires
            old(store).wf(),
        ensures
            final(store).wf(),
            self.ran(old(store)@, final(store)@, r),
    {
        match self {
            FeedCommand::List => Ok(Step::Done(Output::Feeds(Self::list(store)))),
            FeedCommand::Add { url, group } => {
                if store.feed_by_url(&url).is_some() {
                    Err(Error::AlreadyExists(Subject::FeedUrl(url)))
                } else {
                    Ok(Step::Fetch(Pending::Add { url, group }))
                }
            },
            FeedCommand::Delete { id } => match Self::delete(store, id) {
                Ok(feed) => Ok(Step::Done(Output::FeedDeleted(feed))),
                Err(e) => Err(e),
            },
            FeedCommand::Crawl { id } => match store.feed(id) {
                Ok(feed) => Ok(Step::Fetch(Pending::Crawl { id, url: feed.url })),
                Err(e) => Err(e),
            },
        }
    }
}

impl Pending {
    /// The address of the document that the command waits for.
    pub fn url(&self) -> (url: &String)
        ensures
            url == match *self {
                Pending::Add { url, .. } => url,
                Pending::Crawl { url, .. } => url,
            },
    {
        match self {
            Pending::Add { url, .. } => url,
            Pending::Crawl { url, .. } => url,
        }
    }

    /// Goes on with the command at time `now`, given what the fetch-parse pipeline made
    /// of its address: `Add` as [`FeedCommand::add`] does, `Crawl` as
    /// [`FeedCommand::crawl`] does. The store is consulted anew, so a feed that was
    /// added or deleted in the meantime is noticed.
    pub fn resume(
        self,
        store: &mut Store,
        outcome: Result<Document, PipelineError>,
        now: u64,
    ) -> (r: Result<Output, Error>)
        requires
            old(store).wf(),
        ensures
            final(store).wf(),
            match self {
                Pending::Add { url, group } => match r {
                    Ok(output) => {
                        &&& output matches Output::FeedAdded(added)
                        &&& (final(store)@, Ok::<AddedView, ErrorView>(added@)) == add_outcome(
                            old(store)@,
                            url@,
                            text_of(group),
                            result_view(outcome),
                        )
                    },
                    Err(e) => (final(store)@, Err::<AddedView, ErrorView>(e@)) == add_outcome(
                        old(store)@,
                        url@,
                        text_of(group),
                        result_view(outcome),
                    ),
                },
                Pending::Crawl { id, url } => match r {
                    Ok(output) => {
                        &&& output matches Output::Crawled(report)
                        &&& old(store)@.has_feed(id)
                        &&& final(store)@ == old(store)@.crawled(id, result_view(outcome), now)
                        &&& report@ == old(store)@.crawl_report(id, result_view(outcome), now)
                    },
                    Err(e) => {
                        &&& !old(store)@.has_feed(id)
                        &&& final(store)@ == old(store)@
                        &&& e@ == ErrorView::NotFound(SubjectView::Feed(id))
                    },
                },
            },
    {
        match self {
            Pending::Add { url, group } => match FeedCommand::add(store, url, group, outcome) {
                Ok(added) => Ok(Output::FeedAdded(added)),
                Err(e) => Err(e),
            },
            Pending::Crawl { id, url: _ } => match FeedCommand::crawl(store, id, outcome, now) {
                Ok(report) => Ok(Output::Crawled(report)),
                Err(e) => Err(e),
            },
        }
    }
}

impl GroupCommand {
    /// All groups, in the order of their creation.
    pub fn list(store: &Store) -> (groups: Vec<Group>)
        ensures
            groups.deep_view() == store@.groups,
    {
        store.groups()
    }

    /// Creates a group with the title `name`.
    pub fn add(store: &mut Store, name: String) -> (r: Result<Group, Error>)
        requires
            old(store).wf(),
        ensures
            final(store).wf(),
            match r {
                Ok(group) => {
                    &&& !old(store)@.has_title(name@)
                    &&& old(store)@.next_group_id < u32::MAX
                    &&& final(store)@ == old(store)@.with_group(name@)
                    &&& group@ == final(store)@.groups.last()
                },
                Err(e) => {
                    &&& final(store)@ == old(store)@
                    &&& if old(store)@.has_title(name@) {
                        e@ == ErrorView::AlreadyExists(SubjectView::GroupTitle(name@))
                    } else {
                        &&& old(store)@.next_group_id == u32::MAX
                        &&& e@ == ErrorView::StoreError(StoreFault::GroupIdsExhausted)
                    }
                },
            },
    {
        store.create_group(name)
    }

    /// Links the feed `feed_id` to the group with the title `group`. A feed that is in
    /// the group already is not linked a second time.
    ///
    /// `NotFound` where the group does not exist, or else where the feed does not; the
    /// store is then unchanged.
    pub fn add_feed(store: &mut Store, feed_id: u32, group: String) -> (r: Result<(), Error>)
        requires
            old(store).wf(),
        ensures
            final(store).wf(),
            match r {
                Ok(_) => {
                    &&& old(store)@.has_title(group@)
                    &&& old(store)@.has_feed(feed_id)
                    &&& final(store)@ == old(store)@.with_link(
                        feed_id,
                        old(store)@.group_titled(group@).id,
                    )
                    &&& final(store)@.linked(feed_id, old(store)@.group_titled(group@).id)
                },
                Err(e) => {
                    &&& final(store)@ == old(store)@
                    &&& if !old(store)@.has_title(group@) {
                        e@ == ErrorView::NotFound(SubjectView::GroupTitle(group@))
                    } else {
                        &&& !old(store)@.has_feed(feed_id)
                        &&& e@ == ErrorView::NotFound(SubjectView::Feed(feed_id))
                    }
                },
            },
    {
        let found = match store.group_by_title(&group) {
            Some(found) => found,
            None => {
                return Err(Error::NotFound(Subject::GroupTitle(group)));
            },
        };
        proof {
            store@.lemma_group_position(store@.title_index(group@));
            if store@.has_feed(feed_id) {
                store@.lemma_with_link(feed_id, found.id);
            }
        }
        match store.link(feed_id, found.id) {
            Ok(_) => Ok(()),
            Err(e) => Err(e),
        }
    }

    /// Deletes the group with the title `group`, together with its links. Feeds that
    /// still belong to the group do not stand in the way: they and their entries stay,
    /// and the result says that there were some.
    ///
    /// `NotFound` where the group does not exist; the store is then unchanged.
    pub fn delete(store: &mut Store, group: String) -> (r: Result<Deleted, Error>)
        requires
            old(store).wf(),
        ensures
            final(store).wf(),
            match r {
                Ok(deleted) => {
                    &&& old(store)@.has_title(group@)
                    &&& deleted.group@ == old(store)@.group_titled(group@)
                    &&& deleted.had_feeds == (old(store)@.members(deleted.group.id).len() > 0)
                    &&& final(store)@ == old(store)@.without_group(deleted.group.id)
                    &&& final(store)@.feeds == old(store)@.feeds
                    &&& final(store)@.entries == old(store)@.entries
                },
                Err(e) => {
                    &&& !old(store)@.has_title(group@)
                    &&& final(store)@ == old(store)@
                    &&& e@ == ErrorView::NotFound(SubjectView::GroupTitle(group@))
                },
            },
    {
        let found = match store.group_by_title(&group) {
            Some(found) => found,
            None => {
                return Err(Error::NotFound(Subject::GroupTitle(group)));
            },
        };
        proof {
            store@.lemma_group_position(store@.title_index(group@));
        }
        let members = store.members(found.id);
        let had_feeds = members.feed_ids.len() > 0;
        match store.delete_group(found.id) {
            Ok(group) => Ok(Deleted { group, had_feeds }),
            Err(e) => Err(e),
        }
    }

    /// The group with the title `group` and its feeds, in the order in which they were
    /// linked. `NotFound` where the group does not exist.
    pub fn show(store: &Store, group: String) -> (r: Result<Shown, Error>)
        requires
            store.wf(),
        ensures
            match r {
                Ok(shown) => {
                    &&& store@.has_title(group@)
                    &&& shown.group@ == store@.group_titled(group@)
                    &&& shown.feeds.deep_view() == store@.feeds_in(shown.group.id)
                },
                Err(e) => {
                    &&& !store@.has_title(group@)
                    &&& e@ == ErrorView::NotFound(SubjectView::GroupTitle(group@))
                },
            },
    {
        match store.group_by_title(&group) {
            Some(found) => {
                let feeds = store.feeds_in_group(found.id);
                Ok(Shown { group: found, feeds })
            },
            None => Err(Error::NotFound(Subject::GroupTitle(group))),
        }
    }

    /// What [`GroupCommand::run`] makes of a store and what it returns: each command
    /// does what the function of its name does, and the result is that function's, as
    /// an [`Output`].
    pub open spec fn ran(self, before: StoreView, after: StoreView, r: Result<Output, Error>) -> bool {
        match self {
            GroupCommand::List => {
                &&& after == before
                &&& r matches Ok(Output::Groups(groups))
                &&& groups.deep_view() == before.groups
            },
            GroupCommand::Add { name } => match r {
                Ok(output) => {
                    &&& output matches Output::GroupAdded(group)
                    &&& !before.has_title(name@)
                    &&& before.next_group_id < u32::MAX
                    &&& after == before.with_group(name@)
                    &&& group@ == after.groups.last()
                },
                Err(e) => {
                    &&& after == before
                    &&& if before.has_title(name@) {
                        e@ == ErrorView::AlreadyExists(SubjectView::GroupTitle(name@))
                    } else {
                        &&& before.next_group_id == u32::MAX
                        &&& e@ == ErrorView::StoreError(StoreFault::GroupIdsExhausted)
                    }
                },
            },
            GroupCommand::AddFeed { id, group } => match r {
                Ok(output) => {
                    &&& output == Output::FeedLinked
                    &&& before.has_title(group@)
                    &&& before.has_feed(id)
                    &&& after == before.with_link(
                        id,
                        before.group_titled(group@).id,
                    )
                },
                Err(e) => {
                    &&& after == before
                    &&& if !before.has_title(group@) {
                        e@ == ErrorView::NotFound(SubjectView::GroupTitle(group@))
                    } else {
                        &&& !before.has_feed(id)
                        &&& e@ == ErrorView::NotFound(SubjectView::Feed(id))
                    }
                },
            },
            GroupCommand::Delete { name } => match r {
                Ok(output) => {
                    &&& output matches Output::GroupDeleted(deleted)
                    &&& before.has_title(name@)
                    &&& deleted.group@ == before.group_titled(name@)
                    &&& deleted.had_feeds == (before.members(deleted.group.id).len()
                        > 0)
                    &&& after == before.without_group(deleted.group.id)
                },
                Err(e) => {
                    &&& !before.has_title(name@)
                    &&& after == before
                    &&& e@ == ErrorView::NotFound(SubjectView::GroupTitle(name@))
                },
            },
            GroupCommand::Show { name } => {
                &&& after == before
                &&& match r {
                    Ok(output) => {
                        &&& output matches Output::GroupShown(shown)
                        &&& before.has_title(name@)
                        &&& shown.group@ == before.group_titled(name@)
                        &&& shown.feeds.deep_view() == before.feeds_in(shown.group.id)
                    },
                    Err(e) => {
                        &&& !before.has_title(name@)
                        &&& e@ == ErrorView::NotFound(SubjectView::GroupTitle(name@))
                    },
                }
            },
        }
    }

    /// Carries the command out. See [`GroupCommand::ran`].
    pub fn run(self, store: &mut Store) -> (r: Result<Output, Error>)
        requires
            old(store).wf(),
        ensures
            final(store).wf(),
            self.ran(old(store)@, final(store)@, r),
    {
        match self {
            GroupCommand::List => Ok(Output::Groups(Self::list(store))),
            GroupCommand::Add { name } => match Self::add(store, name) {
                Ok(group) => Ok(Output::GroupAdded(group)),
                Err(e) => Err(e),
            },
            GroupCommand::AddFeed { id, group } => match Self::add_feed(store, id, group) {
                Ok(_) => Ok(Output::FeedLinked),
                Err(e) => Err(e),
            },
            GroupCommand::Delete { name } => match Self::delete(store, name) {
                Ok(deleted) => Ok(Output::GroupDeleted(deleted)),
                Err(e) => Err(e),
            },
            GroupCommand::Show { name } => match Self::show(store, name) {
                Ok(shown) => Ok(Output::GroupShown(shown)),
                Err(e) => Err(e),
            },
        }
    }
}

/// The credential that a server asks for: the name and the password where both are
/// given, none where either is missing.
pub open spec fn credential_of(username: Option<String>, password: Option<String>) -> Option<
    Credential,
> {
    match (username, password) {
        (Some(username), Some(password)) => Some(Credential { username, password }),
        _ => None,
    }
}

impl Options {
    /// The options that name a database and a command.
    pub fn new(database: PathBuf, command: SubCommand) -> (options: Options)
        ensures
            options.spec_database() == database,
            options.spec_command() == command,
    {
        Options { database, command }
    }

    pub closed spec fn spec_database(&self) -> PathBuf {
        self.database
    }

    pub closed spec fn spec_command(&self) -> SubCommand {
        self.command
    }

    /// The path of the database.
    pub fn database(&self) -> (database: &PathBuf)
        ensures
            *database == self.spec_database(),
    {
        &self.database
    }

    /// The command.
    pub fn command(&self) -> (command: &SubCommand)
        ensures
            *command == self.spec_command(),
    {
        &self.command
    }

    /// The database and the command, taken apart.
    pub fn into_parts(self) -> (parts: (PathBuf, SubCommand))
        ensures
            parts == (self.spec_database(), self.spec_command()),
    {
        (self.database, self.command)
    }

    /// Where the server is to listen and what it asks of its clients. Clients are asked
    /// for a credential only where both a name and a password were given.
    pub fn server(
        host: String,
        port: u32,
        username: Option<String>,
        password: Option<String>,
    ) -> (plan: ServerPlan)
        ensures
            plan == (ServerPlan { host, port, credential: credential_of(username, password) }),
    {
        let credential = match username {
            Some(username) => match password {
                Some(password) => Some(Credential { username, password }),
                None => None,
            },
            None => None,
        };
        ServerPlan { host, port, credential }
    }

    /// What the listener and the run-loop ended with, taken together: the failure of
    /// the listener where it failed, else the failure of the run-loop where that
    /// failed, else success.
    pub fn served<E>(web: Result<(), E>, crawl: Result<(), E>) -> (r: Result<(), E>)
        ensures
            r == match web {
                Err(e) => Err(e),
                Ok(_) => crawl,
            },
    {
        match web {
            Err(e) => Err(e),
            Ok(_) => crawl,
        }
    }

    /// What the command makes of a store and what it returns: a feed command does what
    /// [`FeedCommand::run`] does, a group command what [`GroupCommand::run`] does, and
    /// always finishes; the server command changes nothing and says where to serve.
    pub open spec fn carried(
        self,
        before: StoreView,
        after: StoreView,
        r: Result<Step, Error>,
    ) -> bool {
        match self.spec_command() {
            SubCommand::Feed(command) => command.ran(before, after, r),
            SubCommand::Group(command) => match r {
                Ok(step) => {
                    &&& step matches Step::Done(output)
                    &&& command.ran(before, after, Ok(output))
                },
                Err(e) => command.ran(before, after, Err(e)),
            },
            SubCommand::Server { host, port, username, password } => {
                &&& after == before
                &&& r == Ok::<Step, Error>(
                    Step::Serve(
                        ServerPlan { host, port, credential: credential_of(username, password) },
                    ),
                )
            },
        }
    }

    /// What [`Options::run`] returns. Where the database could not be opened, that
    /// failure is returned and no command is carried out. Else the command is carried
    /// out on the store of the database, which is returned with what the command has
    /// to show; a command that fails leaves the store as it was.
    pub open spec fn ran(self, database: Result<Store, Error>, r: Result<(Store, Step), Error>) -> bool {
        match database {
            Err(failure) => r == Err::<(Store, Step), Error>(failure),
            Ok(store) => match r {
                Ok((after, step)) => after.wf() && self.carried(store@, after@, Ok(step)),
                Err(e) => self.carried(store@, store@, Err(e)),
            },
        }
    }

    /// Carries the command out on the database, as far as the store alone allows.
    /// `database` is what opening the database gave. See [`Options::ran`].
    pub fn run(self, database: Result<Store, Error>) -> (r: Result<(Store, Step), Error>)
        requires
            database matches Ok(store) ==> store.wf(),
        ensures
            self.ran(database, r),
    {
        let mut store = match database {
            Ok(store) => store,
            Err(failure) => {
                return Err(failure);
            },
        };
        let step = match self.command {
            SubCommand::Feed(command) => command.run(&mut store),
            SubCommand::Group(command) => match command.run(&mut store) {
                Ok(output) => Ok(Step::Done(output)),
                Err(e) => Err(e),
            },
            SubCommand::Server { host, port, username, password } => Ok(
                Step::Serve(Self::server(host, port, username, password)),
            ),
        };
        match step {
            Ok(step) => Ok((store, step)),
            Err(e) => Err(e),
        }
    }
}

} // verus!
