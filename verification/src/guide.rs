//! The answers that the interactive setup understands.

use vstd::prelude::*;
use crate::text::text_eq;

verus! {

/// What a reply to a yes-or-no question means, once it is trimmed and in
/// lower case: `yes` and `y` mean yes, `no` and `n` mean no, and anything
/// else means nothing.
pub open spec fn answer_of(reply: Seq<char>) -> Option<bool> {
    if reply == "yes"@ || reply == "y"@ {
        Some(true)
    } else if reply == "no"@ || reply == "n"@ {
        Some(false)
    } else {
        None
    }
}

/// Reads a reply to a yes-or-no question that was trimmed and put in lower
/// case already.
pub fn yes_or_no(reply: &str) -> (answer: Option<bool>)
    ensures
        answer == answer_of(reply@),
{
    if text_eq(reply, "yes") || text_eq(reply, "y") {
        Some(true)
    } else if text_eq(reply, "no") || text_eq(reply, "n") {
        Some(false)
    } else {
        None
    }
}

} // verus!
