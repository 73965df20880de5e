//! The shell's error taxonomy and its recovery policy.
//!
//! Every error is reported to the user. All but one are recovered in place: the
//! loop goes on. Only a broken input stream ends the session.

use vstd::prelude::*;
use vstd::string::*;
use crate::runner::{ClassificationView, ExitClassification};

verus! {

/// What can go wrong in a session.
#[derive(Clone, Debug, PartialEq, Eq)]
pub enum ShellError {
    /// Missing or malformed arguments to a reserved command.
    UserInputError,
    /// The name is no command.
    UnknownCommand(String),
    /// The command's executable is absent.
    CommandNotFound(String),
    /// The operating system refused to start the process; the reason.
    LaunchFailure(String),
    /// The process ran and ended with this non-zero exit code.
    NonZeroExit(i32),
    /// The input stream is broken; the reason.
    FatalIoError(String),
    /// The history could not be written at shutdown; the reason.
    PersistenceError(String),
}

/// A `ShellError` as plain values.
pub enum ErrorView {
    UserInputError,
    UnknownCommand(Seq<char>),
    CommandNotFound(Seq<char>),
    LaunchFailure(Seq<char>),
    NonZeroExit(i32),
    FatalIoError(Seq<char>),
    PersistenceError(Seq<char>),
}

impl View for ShellError {
    type V = ErrorView;

    open spec fn view(&self) -> ErrorView {
        match self {
            ShellError::UserInputError => ErrorView::UserInputError,
            ShellError::UnknownCommand(name) => ErrorView::UnknownCommand(name@),
            ShellError::CommandNotFound(name) => ErrorView::CommandNotFound(name@),
            ShellError::LaunchFailure(reason) => ErrorView::LaunchFailure(reason@),
            ShellError::NonZeroExit(code) => ErrorView::NonZeroExit(*code),
            ShellError::FatalIoError(reason) => ErrorView::FatalIoError(reason@),
            ShellError::PersistenceError(reason) => ErrorView::PersistenceError(reason@),
        }
    }
}

/// The error, if any, that the end of the command `command` stands for.
pub open spec fn failure_of(classification: ClassificationView, command: Seq<char>) -> Option<
    ErrorView,
> {
    match classification {
        ClassificationView::Success => None,
        ClassificationView::NonZeroExit(code) => Some(ErrorView::NonZeroExit(code)),
        ClassificationView::NotFound => Some(ErrorView::CommandNotFound(command)),
        ClassificationView::LaunchFailed(reason) => Some(ErrorView::LaunchFailure(reason)),
    }
}

/// The view of an optional error.
pub open spec fn error_view(e: Option<ShellError>) -> Option<ErrorView> {
    match e {
        Some(e) => Some(e@),
        None => None,
    }
}

impl ShellError {
    /// Whether the session ends on this error.
    pub open spec fn fatal(self) -> bool {
        self is FatalIoError
    }

    /// Whether the session ends on this error: only a broken input stream is
    /// not recovered in place.
    pub fn is_fatal(&self) -> (b: bool)
        ensures
            b == self.fatal(),
    {
        match self {
            ShellError::FatalIoError(_) => true,
            _ => false,
        }
    }
}

/// The error, if any, to report for how the command `command` ended.
pub fn failure(classification: &ExitClassification, command: &str) -> (error: Option<ShellError>)
    ensures
        error_view(error) == failure_of(classification@, command@),
{
    match classification {
        ExitClassification::Success => None,
        ExitClassification::NonZeroExit(code) => Some(ShellError::NonZeroExit(*code)),
        ExitClassification::NotFound => Some(
            ShellError::CommandNotFound(String::from_str(command)),
        ),
        ExitClassification::LaunchFailed(reason) => Some(
            ShellError::LaunchFailure(reason.clone()),
        ),
    }
}

} // verus!
