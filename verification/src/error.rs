//! The closed set of failures that the library reports.

use vstd::prelude::*;

verus! {

/// Why a document could not be fetched.
#[derive(Debug, PartialEq, Eq)]
pub enum FetchFailure {
    /// The request got no response: the transport failed or timed out.
    Transport(String),
    /// The server answered with a status outside 200..=299.
    Status(u16),
}

/// A fetch failure, with its text as a sequence of characters.
pub enum FetchFailureView {
    Transport(Seq<char>),
    Status(u16),
}

impl View for FetchFailure {
    type V = FetchFailureView;

    open spec fn view(&self) -> FetchFailureView {
        match self {
            FetchFailure::Transport(cause) => FetchFailureView::Transport(cause@),
            FetchFailure::Status(status) => FetchFailureView::Status(*status),
        }
    }
}

impl Clone for FetchFailure {
    fn clone(&self) -> (copy: FetchFailure)
        ensures
            copy == *self,
    {
        match self {
            FetchFailure::Transport(cause) => FetchFailure::Transport(cause.clone()),
            FetchFailure::Status(status) => FetchFailure::Status(*status),
        }
    }
}

/// Why a fetched document is of no use.
#[derive(Debug, PartialEq, Eq)]
pub enum ParseFailure {
    /// The parser rejected the body; the text is its message.
    Malformed(String),
    /// The document parsed, but it has no title to name a new feed by.
    MissingTitle,
}

/// A parse failure, with its text as a sequence of characters.
pub enum ParseFailureView {
    Malformed(Seq<char>),
    MissingTitle,
}

impl View for ParseFailure {
    type V = ParseFailureView;

    open spec fn view(&self) -> ParseFailureView {
        match self {
            ParseFailure::Malformed(message) => ParseFailureView::Malformed(message@),
            ParseFailure::MissingTitle => ParseFailureView::MissingTitle,
        }
    }
}

impl Clone for ParseFailure {
    fn clone(&self) -> (copy: ParseFailure)
        ensures
            copy == *self,
    {
        match self {
            ParseFailure::Malformed(message) => ParseFailure::Malformed(message.clone()),
            ParseFailure::MissingTitle => ParseFailure::MissingTitle,
        }
    }
}

/// Why the fetch-parse pipeline produced no document.
#[derive(Debug, PartialEq, Eq)]
pub enum PipelineError {
    Fetch(FetchFailure),
    Parse(ParseFailure),
}

/// A pipeline failure, with its texts as sequences of characters.
pub enum PipelineErrorView {
    Fetch(FetchFailureView),
    Parse(ParseFailureView),
}

impl View for PipelineError {
    type V = PipelineErrorView;

    open spec fn view(&self) -> PipelineErrorView {
        match self {
            PipelineError::Fetch(failure) => PipelineErrorView::Fetch(failure@),
            PipelineError::Parse(failure) => PipelineErrorView::Parse(failure@),
        }
    }
}

/// What a lookup asked for, or what a creation collided with.
#[derive(Debug, PartialEq, Eq)]
pub enum Subject {
    /// The feed with this id.
    Feed(u32),
    /// The feed with this subscription address.
    FeedUrl(String),
    /// The group with this id.
    Group(u32),
    /// The group with this title.
    GroupTitle(String),
}

/// A subject, with its text as a sequence of characters.
pub enum SubjectView {
    Feed(u32),
    FeedUrl(Seq<char>),
    Group(u32),
    GroupTitle(Seq<char>),
}

impl View for Subject {
    type V = SubjectView;

    open spec fn view(&self) -> SubjectView {
        match self {
            Subject::Feed(id) => SubjectView::Feed(*id),
            Subject::FeedUrl(url) => SubjectView::FeedUrl(url@),
            Subject::Group(id) => SubjectView::Group(*id),
            Subject::GroupTitle(title) => SubjectView::GroupTitle(title@),
        }
    }
}

/// A failure of the store itself.
#[derive(Clone, Copy, Debug, PartialEq, Eq, Structural)]
pub enum StoreFault {
    /// Every feed id has been handed out.
    FeedIdsExhausted,
    /// Every group id has been handed out.
    GroupIdsExhausted,
    /// Saved contents break a constraint of the store.
    ConstraintViolated,
    /// The database could not be read or written.
    Unavailable,
}

/// The kinds of failure, without their details.
#[derive(Clone, Copy, Debug, PartialEq, Eq, Structural)]
pub enum ErrorKind {
    NotFound,
    AlreadyExists,
    FetchError,
    ParseError,
    StoreError,
}

/// A failed operation, with the identifier it failed on.
#[derive(Debug, PartialEq, Eq)]
pub enum Error {
    /// A lookup by id or by unique key found nothing.
    NotFound(Subject),
    /// A creation would have repeated a feed address or a group title.
    AlreadyExists(Subject),
    /// The document at `url` could not be fetched.
    FetchError { url: String, failure: FetchFailure },
    /// The document at `url` was fetched but is of no use.
    ParseError { url: String, reason: ParseFailure },
    /// The store could not carry out the operation.
    StoreError(StoreFault),
}

/// A failed operation, with its texts as sequences of characters.
pub enum ErrorView {
    NotFound(SubjectView),
    AlreadyExists(SubjectView),
    FetchError { url: Seq<char>, failure: FetchFailureView },
    ParseError { url: Seq<char>, reason: ParseFailureView },
    StoreError(StoreFault),
}

impl View for Error {
    type V = ErrorView;

    open spec fn view(&self) -> ErrorView {
        match self {
            Error::NotFound(subject) => ErrorView::NotFound(subject@),
            Error::AlreadyExists(subject) => ErrorView::AlreadyExists(subject@),
            Error::FetchError { url, failure } => ErrorView::FetchError {
                url: url@,
                failure: failure@,
            },
            Error::ParseError { url, reason } => ErrorView::ParseError {
                url: url@,
                reason: reason@,
            },
            Error::StoreError(fault) => ErrorView::StoreError(*fault),
        }
    }
}

impl ErrorView {
    /// The kind of this failure.
    pub open spec fn kind(self) -> ErrorKind {
        match self {
            ErrorView::NotFound(_) => ErrorKind::NotFound,
            ErrorView::AlreadyExists(_) => ErrorKind::AlreadyExists,
            ErrorView::FetchError { .. } => ErrorKind::FetchError,
            ErrorView::ParseError { .. } => ErrorKind::ParseError,
            ErrorView::StoreError(_) => ErrorKind::StoreError,
        }
    }
}

impl Error {
    /// The kind of this failure.
    pub fn kind(&self) -> (kind: ErrorKind)
        ensures
            kind == self@.kind(),
    {
        match self {
            Error::NotFound(_) => ErrorKind::NotFound,
            Error::AlreadyExists(_) => ErrorKind::AlreadyExists,
            Error::FetchError { .. } => ErrorKind::FetchError,
            Error::ParseError { .. } => ErrorKind::ParseError,
            Error::StoreError(_) => ErrorKind::StoreError,
        }
    }

    /// The failure that `error` is when the document came from `url`.
    pub fn of_pipeline(url: String, error: PipelineError) -> (e: Error)
        ensures
            e@ == pipeline_error(url@, error@),
    {
        match error {
            PipelineError::Fetch(failure) => Error::FetchError { url, failure },
            PipelineError::Parse(reason) => Error::ParseError { url, reason },
        }
    }
}

/// The failure that a pipeline error is when the document came from `url`.
pub open spec fn pipeline_error(url: Seq<char>, error: PipelineErrorView) -> ErrorView {
    match error {
        PipelineErrorView::Fetch(failure) => ErrorView::FetchError { url, failure },
        PipelineErrorView::Parse(reason) => ErrorView::ParseError { url, reason },
    }
}

} // verus!
