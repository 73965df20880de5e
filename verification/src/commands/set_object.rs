//! The argument handling of the `set_object` command.
//!
//! The command is called with a database handle, a key and a value. The value
//! is free text: every argument after the key belongs to it, joined by single
//! spaces.

use vstd::prelude::*;
use vstd::string::*;
use crate::number::{parse_usize, parsed_usize};
use crate::split::{join_from, joined};
use crate::text::views;

verus! {

/// What the argument list asks for.
#[derive(Clone, Debug, PartialEq, Eq)]
pub enum SetObject {
    /// Store `value` under `key` in the database `db`.
    Store { db: usize, key: String, value: String },
    /// The database handle is no number.
    BadDatabase(String),
    /// Too few arguments: show how the command is used.
    Usage,
}

/// A `SetObject` as plain values.
pub enum SetObjectView {
    Store { db: usize, key: Seq<char>, value: Seq<char> },
    BadDatabase(Seq<char>),
    Usage,
}

impl View for SetObject {
    type V = SetObjectView;

    open spec fn view(&self) -> SetObjectView {
        match self {
            SetObject::Store { db, key, value } => SetObjectView::Store {
                db: *db,
                key: key@,
                value: value@,
            },
            SetObject::BadDatabase(text) => SetObjectView::BadDatabase(text@),
            SetObject::Usage => SetObjectView::Usage,
        }
    }
}

/// What the argument list `args` asks for. Its first element is the program's
/// own name; then come the database handle, the key, and the words of the
/// value.
pub open spec fn set_object_of(args: Seq<Seq<char>>) -> SetObjectView {
    if args.len() < 4 {
        SetObjectView::Usage
    } else {
        match parsed_usize(args[1]) {
            Some(db) => SetObjectView::Store { db, key: args[2], value: joined(args.skip(3)) },
            None => SetObjectView::BadDatabase(args[1]),
        }
    }
}

/// Reads the argument list of the command.
pub fn plan(args: &Vec<String>) -> (request: SetObject)
    ensures
        request@ == set_object_of(views(args@)),
{
    if args.len() < 4 {
        return SetObject::Usage;
    }
    assert(views(args@)[1] == args@[1]@);
    assert(views(args@)[2] == args@[2]@);
    match parse_usize(args[1].as_str()) {
        Some(db) => SetObject::Store { db, key: args[2].clone(), value: join_from(args, 3) },
        None => SetObject::BadDatabase(args[1].clone()),
    }
}

} // verus!
