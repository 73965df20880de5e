//! The batch command that prints a text.

use vstd::prelude::*;
use vstd::string::*;
use serde_json::Value;
use crate::commands::json::{member_as_str, text_at};

verus! {

/// The line to print for the member read from the document: the text itself,
/// or a complaint where there is none.
pub open spec fn printed_line(text: Option<Seq<char>>) -> Seq<char> {
    match text {
        Some(text) => text,
        None => "Invalid data for print command"@,
    }
}

/// The line to print for the member read from the document.
pub fn line_for(text: Option<&str>) -> (line: String)
    ensures
        line@ == printed_line(
            match text {
                Some(text) => Some(text@),
                None => None,
            },
        ),
{
    match text {
        Some(text) => String::from_str(text),
        None => String::from_str("Invalid data for print command"),
    }
}

/// The line to print: the string under the key `text` of the document.
pub fn execute(data: &Value) -> (line: String)
    ensures
        line@ == printed_line(text_at(*data, "text"@)),
{
    line_for(member_as_str(data, "text"))
}

} // verus!
