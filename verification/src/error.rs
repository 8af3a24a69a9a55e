//! The collector's error, with the text that each kind of failure shows.
use vstd::prelude::*;
use vstd::string::*;

verus! {

/// A failure of the collector. Each kind carries the text that describes it;
/// failures of the database, the network, files and JSON carry the message of
/// the underlying error.
#[derive(Debug)]
pub enum Error {
    Database(String),
    Http(String),
    Io(String),
    Json(String),
    Config(String),
    GithubApi(String),
    NotFound(String),
    Daemon(String),
    Sync(String),
}

/// The mathematical form of an [`Error`].
pub enum ErrorView {
    Database(Seq<char>),
    Http(Seq<char>),
    Io(Seq<char>),
    Json(Seq<char>),
    Config(Seq<char>),
    GithubApi(Seq<char>),
    NotFound(Seq<char>),
    Daemon(Seq<char>),
    Sync(Seq<char>),
}

impl View for Error {
    type V = ErrorView;

    open spec fn view(&self) -> ErrorView {
        match self {
            Error::Database(m) => ErrorView::Database(m@),
            Error::Http(m) => ErrorView::Http(m@),
            Error::Io(m) => ErrorView::Io(m@),
            Error::Json(m) => ErrorView::Json(m@),
            Error::Config(m) => ErrorView::Config(m@),
            Error::GithubApi(m) => ErrorView::GithubApi(m@),
            Error::NotFound(m) => ErrorView::NotFound(m@),
            Error::Daemon(m) => ErrorView::Daemon(m@),
            Error::Sync(m) => ErrorView::Sync(m@),
        }
    }
}

/// The text shown for an error: a heading for its kind, then its detail.
pub open spec fn error_message(e: ErrorView) -> Seq<char> {
    match e {
        ErrorView::Database(m) => "Database error: "@ + m,
        ErrorView::Http(m) => "HTTP error: "@ + m,
        ErrorView::Io(m) => "IO error: "@ + m,
        ErrorView::Json(m) => "JSON error: "@ + m,
        ErrorView::Config(m) => "Configuration error: "@ + m,
        ErrorView::GithubApi(m) => "GitHub API error: "@ + m,
        ErrorView::NotFound(m) => "Not found: "@ + m,
        ErrorView::Daemon(m) => "Daemon error: "@ + m,
        ErrorView::Sync(m) => "Sync error: "@ + m,
    }
}

impl Error {
    /// The text of the error, as it is shown to the user.
    pub fn message(&self) -> (r: String)
        ensures
            r@ == error_message(self@),
    {
        let (head, detail) = match self {
            Error::Database(m) => ("Database error: ", m),
            Error::Http(m) => ("HTTP error: ", m),
            Error::Io(m) => ("IO error: ", m),
            Error::Json(m) => ("JSON error: ", m),
            Error::Config(m) => ("Configuration error: ", m),
            Error::GithubApi(m) => ("GitHub API error: ", m),
            Error::NotFound(m) => ("Not found: ", m),
            Error::Daemon(m) => ("Daemon error: ", m),
            Error::Sync(m) => ("Sync error: ", m),
        };
        let mut r = head.to_owned();
        r.append(detail.as_str());
        r
    }
}

} // verus!
