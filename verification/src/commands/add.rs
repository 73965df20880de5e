//! The batch command that adds two integers.

use vstd::prelude::*;
use serde_json::Value;
use crate::commands::json::{integer_at, member_as_i64};

verus! {

/// What the command answers.
#[derive(Clone, Copy, Debug, PartialEq, Eq, Structural)]
pub enum AddOutcome {
    /// The sum of the two numbers.
    Sum(i128),
    /// A number is missing or is no integer.
    Invalid,
}

/// The answer for the two members read from the document.
pub open spec fn add_outcome(a: Option<i64>, b: Option<i64>) -> AddOutcome {
    match (a, b) {
        (Some(a), Some(b)) => AddOutcome::Sum((a + b) as i128),
        _ => AddOutcome::Invalid,
    }
}

/// Adds the two members, if both are there. The sum is exact: it is taken in a
/// type wide enough for any two `i64`.
pub fn sum_of(a: Option<i64>, b: Option<i64>) -> (outcome: AddOutcome)
    ensures
        outcome == add_outcome(a, b),
        outcome matches AddOutcome::Sum(s) ==> s == a->0 + b->0,
{
    match a {
        Some(a) => match b {
            Some(b) => {
                let wide_a: i128 = a as i128;
                let wide_b: i128 = b as i128;
                AddOutcome::Sum(wide_a + wide_b)
            },
            None => AddOutcome::Invalid,
        },
        None => AddOutcome::Invalid,
    }
}

/// Adds the integers under the keys `a` and `b` of the document.
pub fn execute(data: &Value) -> (outcome: AddOutcome)
    ensures
        outcome == add_outcome(integer_at(*data, "a"@), integer_at(*data, "b"@)),
{
    let a: Option<i64> = member_as_i64(data, "a");
    let b: Option<i64> = member_as_i64(data, "b");
    sum_of(a, b)
}

} // verus!
