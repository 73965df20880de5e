//! What the user gets to read: the prompt, and one message for every outcome.
//!
//! The texts are plain; colours are the caller's business.

use vstd::prelude::*;
use vstd::string::*;
use crate::commands::add::AddOutcome;
use crate::errors::{ErrorView, ShellError};
use crate::number::{decimal_text, push_decimal};
use crate::runner::{ClassificationView, ExitClassification};
use crate::session::{LoopState, Session, SessionView};

verus! {

/// The prompt: the time of day as the caller formatted it, who works on which
/// database, and where.
pub open spec fn prompt_of(clock: Seq<char>, s: SessionView) -> Seq<char> {
    clock + " "@ + s.username + "@"@ + s.current_db + " ["@ + s.working_dir
        + "] PebbleVault >> "@
}

/// The message for an error.
pub open spec fn error_message(error: ErrorView) -> Seq<char> {
    match error {
        ErrorView::UserInputError => "Please specify a database name."@,
        ErrorView::UnknownCommand(name) => "Unknown command! ❌: "@ + name
            + " Type 'help' for a list of commands."@,
        ErrorView::CommandNotFound(name) => "Command not found ❌: "@ + name,
        ErrorView::LaunchFailure(reason) => "Failed to execute command: "@ + reason,
        ErrorView::NonZeroExit(code) => "Command failed ❌: exit code "@ + decimal_text(code as int),
        ErrorView::FatalIoError(reason) => "Error: "@ + reason,
        ErrorView::PersistenceError(reason) => "Failed to save history: "@ + reason,
    }
}

/// The message for how the command `command` ended.
pub open spec fn outcome_message(classification: ClassificationView, command: Seq<char>) -> Seq<
    char,
> {
    match classification {
        ClassificationView::Success => "Command executed successfully ✅"@,
        ClassificationView::NonZeroExit(_) => "Command failed ❌: "@ + command,
        ClassificationView::NotFound => "Command not found ❌: "@ + command,
        ClassificationView::LaunchFailed(reason) => "Failed to execute command: "@ + reason,
    }
}

/// The message on leaving the loop in `state`; none for a running loop, nor
/// for a broken input stream, whose error is reported instead.
pub open spec fn farewell_of(state: LoopState) -> Option<Seq<char>> {
    match state {
        LoopState::ExitedByUser => Some("Goodbye! 👋"@),
        LoopState::ExitedByInterrupt => Some("CTRL-C"@),
        LoopState::ExitedByEndOfInput => Some("CTRL-D"@),
        _ => None,
    }
}

/// The line that the `add` command prints.
pub open spec fn add_line(outcome: AddOutcome) -> Seq<char> {
    match outcome {
        AddOutcome::Sum(sum) => "Result: "@ + decimal_text(sum as int),
        AddOutcome::Invalid => "Invalid data for add command"@,
    }
}

/// The prompt of the session, for the time of day `clock`.
pub fn prompt(clock: &str, session: &Session) -> (text: String)
    ensures
        text@ == prompt_of(clock@, session@),
{
    let mut text: String = String::from_str(clock);
    text.append(" ");
    text.append(session.username.as_str());
    text.append("@");
    text.append(session.current_db.as_str());
    text.append(" [");
    text.append(session.working_dir.as_str());
    text.append("] PebbleVault >> ");
    text
}

/// The message for an error.
pub fn message(error: &ShellError) -> (text: String)
    ensures
        text@ == error_message(error@),
{
    match error {
        ShellError::UserInputError => String::from_str("Please specify a database name."),
        ShellError::UnknownCommand(name) => {
            let mut text: String = String::from_str("Unknown command! ❌: ");
            text.append(name.as_str());
            text.append(" Type 'help' for a list of commands.");
            text
        },
        ShellError::CommandNotFound(name) => {
            let mut text: String = String::from_str("Command not found ❌: ");
            text.append(name.as_str());
            text
        },
        ShellError::LaunchFailure(reason) => {
            let mut text: String = String::from_str("Failed to execute command: ");
            text.append(reason.as_str());
            text
        },
        ShellError::NonZeroExit(code) => {
            let mut text: String = String::from_str("Command failed ❌: exit code ");
            push_decimal(&mut text, *code as i128);
            text
        },
        ShellError::FatalIoError(reason) => {
            let mut text: String = String::from_str("Error: ");
            text.append(reason.as_str());
            text
        },
        ShellError::PersistenceError(reason) => {
            let mut text: String = String::from_str("Failed to save history: ");
            text.append(reason.as_str());
            text
        },
    }
}

/// The message for how the command `command` ended.
pub fn outcome(classification: &ExitClassification, command: &str) -> (text: String)
    ensures
        text@ == outcome_message(classification@, command@),
{
    match classification {
        ExitClassification::Success => String::from_str("Command executed successfully ✅"),
        ExitClassification::NonZeroExit(_) => {
            let mut text: String = String::from_str("Command failed ❌: ");
            text.append(command);
            text
        },
        ExitClassification::NotFound => {
            let mut text: String = String::from_str("Command not found ❌: ");
            text.append(command);
            text
        },
        ExitClassification::LaunchFailed(reason) => {
            let mut text: String = String::from_str("Failed to execute command: ");
            text.append(reason.as_str());
            text
        },
    }
}

/// The message on leaving the loop in `state`.
pub fn farewell(state: LoopState) -> (text: Option<String>)
    ensures
        match text {
            Some(text) => farewell_of(state) == Some(text@),
            None => farewell_of(state) is None,
        },
{
    match state {
        LoopState::ExitedByUser => Some(String::from_str("Goodbye! 👋")),
        LoopState::ExitedByInterrupt => Some(String::from_str("CTRL-C")),
        LoopState::ExitedByEndOfInput => Some(String::from_str("CTRL-D")),
        _ => None,
    }
}

/// The line that the `add` command prints.
pub fn add_result(outcome: AddOutcome) -> (text: String)
    ensures
        text@ == add_line(outcome),
{
    match outcome {
        AddOutcome::Sum(sum) => {
            let mut text: String = String::from_str("Result: ");
            push_decimal(&mut text, sum);
            text
        },
        AddOutcome::Invalid => String::from_str("Invalid data for add command"),
    }
}

} // verus!
