//! Where a post's file goes: directory names free of the characters that some
//! file systems refuse, and the directory and file paths built from them.

use vstd::prelude::*;
use crate::e621::text::push_char;

verus! {

/// Characters that may not stand in a directory name on every platform.
pub open spec fn is_invalid_char(c: char) -> bool {
    c == '?' || c == ':' || c == '*' || c == '<' || c == '>' || c == '"' || c == '|'
}

/// No character of `text` is an invalid one.
pub open spec fn is_clean(text: Seq<char>) -> bool {
    forall|i: int| 0 <= i < text.len() ==> !is_invalid_char(#[trigger] text[i])
}

/// A directory name with every invalid character replaced by an underscore.
pub open spec fn sanitized(name: Seq<char>) -> Seq<char> {
    Seq::new(name.len(), |i: int| if is_invalid_char(name[i]) { '_' } else { name[i] })
}

/// The directory of a set below the download root. A set without a category
/// lies directly below the root, any other one level deeper, below its
/// category. The root is taken as written: it brings its own separator.
pub open spec fn directory_of(root: Seq<char>, category: Seq<char>, set_name: Seq<char>) -> Seq<char> {
    if category.len() == 0 {
        root + sanitized(set_name) + seq!['/']
    } else {
        root + category + seq!['/'] + sanitized(set_name) + seq!['/']
    }
}

/// The path of a post's file: its set's directory followed by its file name.
pub open spec fn file_path_of(
    root: Seq<char>,
    category: Seq<char>,
    set_name: Seq<char>,
    file_name: Seq<char>,
) -> Seq<char> {
    directory_of(root, category, set_name) + file_name
}

/// Tells whether `c` is one of the seven invalid characters.
pub fn invalid_char(c: char) -> (invalid: bool)
    ensures
        invalid == is_invalid_char(c),
{
    c == '?' || c == ':' || c == '*' || c == '<' || c == '>' || c == '"' || c == '|'
}

/// Replaces every invalid character of a directory name by an underscore and
/// leaves the other characters where they are.
pub fn sanitize(name: &str) -> (clean: String)
    ensures
        clean@ == sanitized(name@),
        clean@.len() == name@.len(),
        is_clean(clean@),
{
    let mut clean = String::new();
    for c in it: name.chars()
        invariant
            it.seq() == name@,
            clean@ == sanitized(name@.take(it.index())),
    {
        if invalid_char(c) {
            push_char(&mut clean, '_');
        } else {
            push_char(&mut clean, c);
        }
    }
    clean
}

/// Builds the directory of a set below `root`.
pub fn directory_for(root: &str, category: &str, set_name: &str) -> (directory: String)
    ensures
        directory@ == directory_of(root@, category@, set_name@),
{
    let clean = sanitize(set_name);
    let mut directory = String::from_str(root);
    proof {
        reveal_strlit("/");
    }
    if !category.is_empty() {
        directory.append(category);
        directory.append("/");
    }
    directory.append(clean.as_str());
    directory.append("/");
    directory
}

/// Builds the path of the file `file_name` inside `directory`.
pub fn file_path(directory: &str, file_name: &str) -> (path: String)
    ensures
        path@ == directory@ + file_name@,
{
    let mut path = String::from_str(directory);
    path.append(file_name);
    path
}

} // verus!
