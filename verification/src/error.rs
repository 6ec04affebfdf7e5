//! The failures a command can end in.

use vstd::prelude::*;

verus! {

/// Every way a command can fail. Each failure ends the command: none is
/// retried or repaired.
#[derive(Debug, PartialEq, Eq)]
pub enum Error {
    /// The key given to authenticate with was empty.
    EmptyCredential,
    /// A command that talks to the service found no stored key.
    MissingCredential,
    /// The service did not accept the key; `cause` is what the validation
    /// call ended in.
    InvalidCredential { cause: Box<Error> },
    /// The workspace has no team to link.
    NoTeamsAvailable,
    /// No linked team carries the alias.
    TeamNotFound,
    /// No alias was given and no default team is set.
    NoDefaultTeam,
    /// The issue title was empty.
    EmptyTitle,
    /// The service answered with a status outside 200..=299.
    RemoteHttpError { status: u16, body: String },
    /// The service answered with GraphQL errors; `messages` joins them.
    RemoteGraphQLError { messages: String },
    /// The answer did not have the agreed shape.
    RemoteProtocolError { reason: String },
    /// The service took the request and declined to create the issue.
    IssueCreateRejected,
    /// A record could not be read or written.
    IOError { reason: String },
    /// A stored record does not describe a valid state.
    CorruptState { reason: String },
}

/// The mathematical value of an [`Error`]: its kind, with text as sequences
/// of characters.
pub enum ErrorView {
    EmptyCredential,
    MissingCredential,
    InvalidCredential { cause: Box<ErrorView> },
    NoTeamsAvailable,
    TeamNotFound,
    NoDefaultTeam,
    EmptyTitle,
    RemoteHttpError { status: u16, body: Seq<char> },
    RemoteGraphQLError { messages: Seq<char> },
    RemoteProtocolError { reason: Seq<char> },
    IssueCreateRejected,
    IOError { reason: Seq<char> },
    CorruptState { reason: Seq<char> },
}

/// The value of an error, cause by cause.
pub open spec fn error_view(e: Error) -> ErrorView
    decreases e,
{
        match e {
            Error::EmptyCredential => ErrorView::EmptyCredential,
            Error::MissingCredential => ErrorView::MissingCredential,
            Error::InvalidCredential { cause } => ErrorView::InvalidCredential {
                cause: Box::new(error_view(*cause)),
            },
            Error::NoTeamsAvailable => ErrorView::NoTeamsAvailable,
            Error::TeamNotFound => ErrorView::TeamNotFound,
            Error::NoDefaultTeam => ErrorView::NoDefaultTeam,
            Error::EmptyTitle => ErrorView::EmptyTitle,
            Error::RemoteHttpError { status, body } => ErrorView::RemoteHttpError {
                status,
                body: body@,
            },
            Error::RemoteGraphQLError { messages } => ErrorView::RemoteGraphQLError {
                messages: messages@,
            },
            Error::RemoteProtocolError { reason } => ErrorView::RemoteProtocolError {
                reason: reason@,
            },
            Error::IssueCreateRejected => ErrorView::IssueCreateRejected,
            Error::IOError { reason } => ErrorView::IOError { reason: reason@ },
            Error::CorruptState { reason } => ErrorView::CorruptState { reason: reason@ },
        }
}

impl View for Error {
    type V = ErrorView;

    open spec fn view(&self) -> ErrorView {
        error_view(*self)
    }
}

impl Error {
    /// Wraps what a validation call ended in as a rejected credential.
    pub fn invalid_credential(cause: Error) -> (e: Error)
        ensures
            e@ == (ErrorView::InvalidCredential { cause: Box::new(cause@) }),
    {
        Error::InvalidCredential { cause: Box::new(cause) }
    }
}

} // verus!
