//! Reading a yes or a no out of a line that an operator typed.

use vstd::prelude::*;
use crate::e621::text::{lowercase, lowercased, same, trim, trimmed};

verus! {

/// The answer that a line gives once it is in lower case and without the
/// white space around it: `y` and `yes` agree, `n` and `no` decline, and
/// everything else is no answer.
pub open spec fn answer_of(normalized: Seq<char>) -> Option<bool> {
    if normalized == "y"@ || normalized == "yes"@ {
        Some(true)
    } else if normalized == "n"@ || normalized == "no"@ {
        Some(false)
    } else {
        None
    }
}

/// Reads the answer out of a line that is already in lower case and trimmed.
pub fn classify_answer(normalized: &str) -> (answer: Option<bool>)
    ensures
        answer == answer_of(normalized@),
{
    if same(normalized, "y") || same(normalized, "yes") {
        Some(true)
    } else if same(normalized, "n") || same(normalized, "no") {
        Some(false)
    } else {
        None
    }
}

/// Reads the answer out of a line as it was typed: the line is put in lower
/// case, the white space at its ends is dropped, and what is left is read as
/// [`classify_answer`] reads it. `None` means that the question has to be
/// asked again.
pub fn parse_yes_no(input: &str) -> (answer: Option<bool>)
    ensures
        answer == answer_of(trimmed(lowercased(input@))),
{
    let lower = lowercase(input);
    classify_answer(trim(lower.as_str()))
}

} // verus!
