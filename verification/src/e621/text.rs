//! The string operations of the standard library that the verifier has no
//! specification for. Each function here is believed, not proved: its body is
//! a single call, and its contract repeats what the documentation of the
//! called function promises.

use vstd::prelude::*;

verus! {

/// What `str::to_lowercase` returns for a text: its lowercase form under the
/// Unicode case mapping that the standard library carries.
pub uninterp spec fn lowercased(text: Seq<char>) -> Seq<char>;

/// What `str::trim` returns for a text: the text without the white space at
/// its two ends, white space being the Unicode property of that name.
pub uninterp spec fn trimmed(text: Seq<char>) -> Seq<char>;

/// `needle` occurs in `hay` as a run of consecutive characters.
pub open spec fn occurs_in(needle: Seq<char>, hay: Seq<char>) -> bool {
    exists|i: int|
        0 <= i && i + needle.len() <= hay.len() && #[trigger] hay.subrange(i, i + needle.len())
            == needle
}

/// Calls `String::push`. Believed: the string afterwards is the string before
/// with `c` added at its end.
#[verifier::external_body]
pub(crate) fn push_char(text: &mut String, c: char)
    ensures
        final(text)@ == old(text)@.push(c),
{
    text.push(c);
}

/// Calls `str::to_lowercase`. Believed: the result depends on the characters
/// of `text` alone; `lowercased` is the name of that result.
#[verifier::external_body]
pub(crate) fn lowercase(text: &str) -> (lower: String)
    ensures
        lower@ == lowercased(text@),
{
    text.to_lowercase()
}

/// Calls `str::trim`. Believed: the result depends on the characters of
/// `text` alone; `trimmed` is the name of that result.
#[verifier::external_body]
pub(crate) fn trim(text: &str) -> (inner: &str)
    ensures
        inner@ == trimmed(text@),
{
    text.trim()
}

/// Calls `==` of `str`. Believed: two string slices are equal exactly when
/// they hold the same characters in the same order.
#[verifier::external_body]
pub(crate) fn same(a: &str, b: &str) -> (equal: bool)
    ensures
        equal == (a@ == b@),
{
    a == b
}

/// Calls `str::contains` with a string pattern. Believed: the answer is
/// `true` exactly when `needle` occurs in `hay`.
#[verifier::external_body]
pub(crate) fn contains(hay: &str, needle: &str) -> (found: bool)
    ensures
        found == occurs_in(needle@, hay@),
{
    hay.contains(needle)
}

} // verus!
