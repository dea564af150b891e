//! Error vocabulary of the scaffolding engine.
//!
//! Every failure is fatal to the operation that raised it: there is no retry
//! and no partial recovery. Each error type carries a `message` spec function
//! pinning down the user-visible text its `value` method returns.

use vstd::prelude::*;

verus! {

/// Messages reported when a file-system or download step of the scaffolding
/// fails.
#[derive(Clone, Copy, PartialEq, Eq, Debug, Structural)]
pub enum ErrorMessages {
    FailedCreateDir,
    FailedCreateFile,
    FailedRemoveDir,
    FailedRemoveFile,
    FailedWrite,
    FailedGet,
}

impl ErrorMessages {
    /// The text shown for this failure.
    pub open spec fn message(&self) -> Seq<char> {
        match *self {
            ErrorMessages::FailedCreateDir => "Failed to Create Dir"@,
            ErrorMessages::FailedCreateFile => "Failed to Create File"@,
            ErrorMessages::FailedRemoveDir => "Failed to Remove Dir"@,
            ErrorMessages::FailedRemoveFile => "Failed to Remove File"@,
            ErrorMessages::FailedWrite => "Failed to Write"@,
            ErrorMessages::FailedGet => "Failed to Get File"@,
        }
    }

    pub fn value<'a>(&self) -> (r: &'a str)
        ensures
            r@ == self.message(),
    {
        match *self {
            ErrorMessages::FailedCreateDir => "Failed to Create Dir",
            ErrorMessages::FailedCreateFile => "Failed to Create File",
            ErrorMessages::FailedRemoveDir => "Failed to Remove Dir",
            ErrorMessages::FailedRemoveFile => "Failed to Remove File",
            ErrorMessages::FailedWrite => "Failed to Write",
            ErrorMessages::FailedGet => "Failed to Get File",
        }
    }
}

/// Failures while turning user input (a URL, a contest name, a kind token)
/// into a contest description. Each aborts the requested operation.
#[derive(Clone, Copy, PartialEq, Eq, Debug, Structural)]
pub enum ParseError {
    /// The URL does not name a contest on the contest host.
    InvalidUrl,
    /// The kind token is not one of the recognized contest series.
    InvalidContestKind,
    /// A free-form contest name came with no explicit kind to go with it.
    MissingContestKind,
    /// The subcommand was not given the arguments it needs.
    MissingArgs,
}

impl ParseError {
    /// The text shown for this failure.
    pub open spec fn message(&self) -> Seq<char> {
        match *self {
            ParseError::InvalidUrl => "Invalid URL !"@,
            ParseError::InvalidContestKind => "invalid kind !"@,
            ParseError::MissingContestKind => "name and kind is required !"@,
            ParseError::MissingArgs => "invalid args"@,
        }
    }

    pub fn value<'a>(&self) -> (r: &'a str)
        ensures
            r@ == self.message(),
    {
        match *self {
            ParseError::InvalidUrl => "Invalid URL !",
            ParseError::InvalidContestKind => "invalid kind !",
            ParseError::MissingContestKind => "name and kind is required !",
            ParseError::MissingArgs => "invalid args",
        }
    }
}

/// Failure of the task-list miner: no table of the expected layout was found
/// on the page, or a row of the recognized table had no task link. The page
/// structure has changed; nothing is retried.
#[derive(Clone, Copy, PartialEq, Eq, Debug, Structural)]
pub enum ExtractionError {
    LayoutNotFound,
}

impl ExtractionError {
    /// The text shown for this failure.
    pub open spec fn message(&self) -> Seq<char> {
        "EOF"@
    }

    pub fn value<'a>(&self) -> (r: &'a str)
        ensures
            r@ == self.message(),
    {
        "EOF"
    }
}

/// Failures of the scaffold assembly as a whole.
#[derive(Clone, Copy, PartialEq, Eq, Debug, Structural)]
pub enum AssemblyError {
    /// The task-list page had no recognizable task table.
    LayoutNotFound,
    /// The task list did not have exactly one URL per problem label.
    TaskListMismatch,
}

/// Transport-level failures of an authenticated page fetch. Raised by the
/// session code around the library, never by the verified extractors.
#[derive(Clone, Copy, PartialEq, Eq, Debug, Structural)]
pub enum FetchError {
    /// The request itself failed.
    Network,
    /// The response body could not be decoded as text.
    Decode,
}

impl FetchError {
    /// The text shown for this failure.
    pub open spec fn message(&self) -> Seq<char> {
        match *self {
            FetchError::Network => "Network Error"@,
            FetchError::Decode => "Decode Error"@,
        }
    }

    pub fn value<'a>(&self) -> (r: &'a str)
        ensures
            r@ == self.message(),
    {
        match *self {
            FetchError::Network => "Network Error",
            FetchError::Decode => "Decode Error",
        }
    }
}

} // verus!
