//! The `history` command: lists the lines of the history transcript, all of
//! them or the first few.

use vstd::prelude::*;
use vstd::string::*;
use crate::number::{parse_usize, parsed_usize};
use crate::text::{lemma_views_push, views};

verus! {

/// The limit that the argument list asks for: its second element, where that is
/// a number. The first element is the program's own name.
pub open spec fn limit_in(args: Seq<Seq<char>>) -> Option<usize> {
    if args.len() > 1 {
        parsed_usize(args[1])
    } else {
        None
    }
}

/// How many of `count` lines are listed under `limit`: all of them without a
/// limit; with one, as many as it says, but never fewer than one where there
/// is a line.
pub open spec fn listed_count(count: nat, limit: Option<usize>) -> nat {
    match limit {
        None => count,
        Some(limit) => {
            let wanted: nat = if limit == 0 {
                1
            } else {
                limit as nat
            };
            if wanted < count {
                wanted
            } else {
                count
            }
        },
    }
}

/// The lines that are listed: the first `listed_count` of them, in order.
pub open spec fn listed(lines: Seq<Seq<char>>, limit: Option<usize>) -> Seq<Seq<char>> {
    lines.subrange(0, listed_count(lines.len(), limit) as int)
}

/// The limit that the argument list asks for, if any.
pub fn limit_of(args: &Vec<String>) -> (limit: Option<usize>)
    ensures
        limit == limit_in(views(args@)),
{
    if args.len() > 1 {
        assert(views(args@)[1] == args@[1]@);
        parse_usize(args[1].as_str())
    } else {
        None
    }
}

/// The lines to list.
pub fn listing(lines: &Vec<String>, limit: Option<usize>) -> (out: Vec<String>)
    ensures
        views(out@) == listed(views(lines@), limit),
{
    let mut out: Vec<String> = Vec::new();
    let mut i: usize = 0;
    while i < lines.len()
        invariant
            i <= lines@.len(),
            i > 0 && limit is Some ==> i < limit->0,
            views(out@) == views(lines@).subrange(0, i as int),
        decreases lines@.len() - i,
    {
        let line: String = lines[i].clone();
        proof {
            lemma_views_push(out@, line);
            assert(line@ == views(lines@)[i as int]);
            assert(views(out@).push(line@) =~= views(lines@).subrange(0, i + 1));
        }
        out.push(line);
        i += 1;
        match limit {
            Some(limit) => {
                if i >= limit {
                    return out;
                }
            },
            None => {},
        }
    }
    out
}

} // verus!
