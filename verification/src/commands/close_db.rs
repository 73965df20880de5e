//! The argument handling of the `close_db` command.

use vstd::prelude::*;
use vstd::string::*;
use crate::text::views;

verus! {

/// What the command does: whether it closes the database, and the line it
/// prints.
#[derive(Clone, Debug, PartialEq, Eq)]
pub struct CloseDb {
    pub closes: bool,
    pub greeting: String,
}

/// The line that the command prints for the argument list `args`, whose first
/// element is the program's own name.
pub open spec fn greeting_of(args: Seq<Seq<char>>) -> Seq<char> {
    if args.len() > 1 {
        "Hello, "@ + args[1] + "!"@
    } else {
        "Hello, World!"@
    }
}

/// Reads the argument list of the command: with an argument the database is
/// closed and the argument greeted; without one nothing is closed.
pub fn plan(args: &Vec<String>) -> (request: CloseDb)
    ensures
        request.closes == (args@.len() > 1),
        request.greeting@ == greeting_of(views(args@)),
{
    if args.len() > 1 {
        assert(views(args@)[1] == args@[1]@);
        let mut greeting: String = String::from_str("Hello, ");
        greeting.append(args[1].as_str());
        greeting.append("!");
        CloseDb { closes: true, greeting }
    } else {
        CloseDb { closes: false, greeting: String::from_str("Hello, World!") }
    }
}

} // verus!
