//! Errors of the service and the statuses they are answered with.
use vstd::prelude::*;

use crate::text::{decimal, decimal_text, join2, join3};

verus! {

/// What a fallible operation of this crate returns.
pub type Result<T> = std::result::Result<T, Error>;

/// Why an operation failed.
#[derive(Debug, Clone, PartialEq, Eq)]
pub enum Error {
    /// The workspace id is empty, too long, or holds a character that is not
    /// allowed.
    InvalidWorkspaceId,
    /// A path leads out of the workspace.
    PathEscape(String),
    /// There is no such workspace.
    WorkspaceNotFound(String),
    /// The container daemon failed; holds its words.
    Docker(String),
    /// Input or output failed; holds the system's words.
    Io(String),
    /// A command ran longer than it may; holds the limit in seconds.
    ExecTimeout(u32),
    /// Anything else; holds what to say.
    Other(String),
}

/// What an `Error` says, over mathematical text.
pub enum ErrorView {
    InvalidWorkspaceId,
    PathEscape(Seq<char>),
    WorkspaceNotFound(Seq<char>),
    Docker(Seq<char>),
    Io(Seq<char>),
    ExecTimeout(nat),
    Other(Seq<char>),
}

impl View for Error {
    type V = ErrorView;

    open spec fn view(&self) -> ErrorView {
        match *self {
            Error::InvalidWorkspaceId => ErrorView::InvalidWorkspaceId,
            Error::PathEscape(p) => ErrorView::PathEscape(p@),
            Error::WorkspaceNotFound(w) => ErrorView::WorkspaceNotFound(w@),
            Error::Docker(e) => ErrorView::Docker(e@),
            Error::Io(e) => ErrorView::Io(e@),
            Error::ExecTimeout(s) => ErrorView::ExecTimeout(s as nat),
            Error::Other(m) => ErrorView::Other(m@),
        }
    }
}

/// The classes of failure that a caller is told apart.
#[derive(Debug, Clone, Copy, PartialEq, Eq, Structural)]
pub enum Code {
    /// The request itself is wrong.
    InvalidArgument,
    /// What the request names is not there.
    NotFound,
    /// A time limit ran out.
    DeadlineExceeded,
    /// The service is at its capacity; try again later.
    ResourceExhausted,
    /// The service failed.
    Internal,
}

/// The failure that a caller is answered with.
#[derive(Debug, Clone, PartialEq, Eq)]
pub struct Status {
    pub code: Code,
    pub message: String,
}

/// What a `Status` says, over mathematical text.
pub struct StatusView {
    pub code: Code,
    pub message: Seq<char>,
}

impl View for Status {
    type V = StatusView;

    open spec fn view(&self) -> StatusView {
        StatusView { code: self.code, message: self.message@ }
    }
}

/// The class of failure that an error belongs to.
pub open spec fn code_of(e: ErrorView) -> Code {
    match e {
        ErrorView::InvalidWorkspaceId => Code::InvalidArgument,
        ErrorView::PathEscape(_) => Code::InvalidArgument,
        ErrorView::WorkspaceNotFound(_) => Code::NotFound,
        ErrorView::ExecTimeout(_) => Code::DeadlineExceeded,
        ErrorView::Docker(_) => Code::Internal,
        ErrorView::Io(_) => Code::Internal,
        ErrorView::Other(_) => Code::Internal,
    }
}

/// An error in words.
pub open spec fn error_text(e: ErrorView) -> Seq<char> {
    match e {
        ErrorView::InvalidWorkspaceId => "workspace_id is empty or invalid"@,
        ErrorView::PathEscape(p) => "path escapes workspace root: "@ + p,
        ErrorView::WorkspaceNotFound(w) => "workspace not found: "@ + w,
        ErrorView::Docker(d) => "docker: "@ + d,
        ErrorView::Io(d) => "io: "@ + d,
        ErrorView::ExecTimeout(s) => "exec timed out after "@ + decimal(s) + "s"@,
        ErrorView::Other(m) => m,
    }
}

/// The status that an error is answered with.
pub open spec fn status_of(e: ErrorView) -> StatusView {
    StatusView { code: code_of(e), message: error_text(e) }
}

impl Error {
    /// The error in words.
    pub fn message(&self) -> (text: String)
        ensures
            text@ == error_text(self@),
    {
        match self {
            Error::InvalidWorkspaceId => "workspace_id is empty or invalid".to_string(),
            Error::PathEscape(p) => join2("path escapes workspace root: ", p.as_str()),
            Error::WorkspaceNotFound(w) => join2("workspace not found: ", w.as_str()),
            Error::Docker(e) => join2("docker: ", e.as_str()),
            Error::Io(e) => join2("io: ", e.as_str()),
            Error::ExecTimeout(s) => join3(
                "exec timed out after ",
                decimal_text(*s as u64).as_str(),
                "s",
            ),
            Error::Other(m) => m.clone(),
        }
    }

    /// The class of failure that the error belongs to.
    pub fn code(&self) -> (code: Code)
        ensures
            code == code_of(self@),
    {
        match self {
            Error::InvalidWorkspaceId => Code::InvalidArgument,
            Error::PathEscape(_) => Code::InvalidArgument,
            Error::WorkspaceNotFound(_) => Code::NotFound,
            Error::ExecTimeout(_) => Code::DeadlineExceeded,
            Error::Docker(_) => Code::Internal,
            Error::Io(_) => Code::Internal,
            Error::Other(_) => Code::Internal,
        }
    }

    /// The status that the error is answered with.
    pub fn status(&self) -> (status: Status)
        ensures
            status@ == status_of(self@),
    {
        Status { code: self.code(), message: self.message() }
    }
}

impl Status {
    /// A status with the given class and words.
    pub fn new(code: Code, message: &str) -> (status: Status)
        ensures
            status@ == (StatusView { code: code, message: message@ }),
    {
        Status { code: code, message: message.to_string() }
    }
}

/// An `Other` error that says `message`.
pub fn other(message: &str) -> (e: Error)
    ensures
        e@ == ErrorView::Other(message@),
{
    Error::Other(message.to_string())
}

/// What came back, with the text and the error taken by their views.
pub open spec fn text_outcome(r: Result<String>) -> std::result::Result<Seq<char>, ErrorView> {
    match r {
        Ok(t) => Ok(t@),
        Err(e) => Err(e@),
    }
}

/// What came back, with the error taken by its view.
pub open spec fn outcome<T>(r: Result<T>) -> std::result::Result<T, ErrorView> {
    match r {
        Ok(t) => Ok(t),
        Err(e) => Err(e@),
    }
}

/// What came back, with the status taken by its view.
pub open spec fn answer<T>(r: std::result::Result<T, Status>) -> std::result::Result<
    T,
    StatusView,
> {
    match r {
        Ok(t) => Ok(t),
        Err(s) => Err(s@),
    }
}

/// An error that is the caller's is answered as such: a bad id and a path that
/// leads out are wrong requests, a workspace that is not there is not found, a
/// command that ran too long is late, and everything else is the service's own.
pub proof fn law_errors_are_answered_by_whose_they_are(e: &Error, status: Status)
    requires
        call_ensures(Error::status, (e,), status),
    ensures
        status.code == Code::InvalidArgument <==> *e is InvalidWorkspaceId || *e is PathEscape,
        status.code == Code::NotFound <==> *e is WorkspaceNotFound,
        status.code == Code::DeadlineExceeded <==> *e is ExecTimeout,
        status.code == Code::Internal <==> *e is Docker || *e is Io || *e is Other,
        status@ == status_of(e@),
{
}

/// An error says what went wrong: it ends with the words that it holds, behind
/// words that tell what kind it is of; other errors say just what they hold.
pub proof fn law_errors_say_what_went_wrong(e: &Error, text: String, status: Status)
    requires
        call_ensures(Error::message, (e,), text),
        call_ensures(Error::status, (e,), status),
    ensures
        status.message@ == text@,
        match *e {
            Error::InvalidWorkspaceId => text@ == "workspace_id is empty or invalid"@,
            Error::PathEscape(p) => text@ == "path escapes workspace root: "@ + p@,
            Error::WorkspaceNotFound(w) => text@ == "workspace not found: "@ + w@,
            Error::Docker(d) => text@ == "docker: "@ + d@,
            Error::Io(d) => text@ == "io: "@ + d@,
            Error::ExecTimeout(s) => text@ == "exec timed out after "@ + decimal(s as nat) + "s"@,
            Error::Other(m) => text@ == m@,
        },
{
}

/// A status and an error say what they were given.
pub proof fn law_words_are_kept(code: Code, message: &str, status: Status, e: Error)
    requires
        call_ensures(Status::new, (code, message), status),
        call_ensures(other, (message,), e),
    ensures
        status.code == code,
        status.message@ == message@,
        e matches Error::Other(m) && m@ == message@,
{
}

/// The class of an error is that of the status it is answered with.
pub proof fn law_code_is_that_of_the_status(e: &Error, code: Code, status: Status)
    requires
        call_ensures(Error::code, (e,), code),
        call_ensures(Error::status, (e,), status),
    ensures
        code == status.code,
{
}

} // verus!
