//! The posts that a search brought back, grouped into named sets.

use vstd::prelude::*;
use crate::e621::text::same;

verus! {

/// One post to download.
#[derive(Clone, Debug, PartialEq, Eq)]
pub struct GrabbedPost {
    /// Name of the file on disk.
    pub file_name: String,
    /// Where the file's bytes are fetched from.
    pub file_url: String,
    /// The length in bytes that the source announced.
    pub file_size: i64,
}

/// A named, ordered collection of posts that share a directory. The posts
/// stand newest first, as a search delivers them.
#[derive(Clone, Debug, PartialEq, Eq)]
pub struct PostSet {
    /// Name of the tag group, or of the bucket of posts grabbed one by one.
    pub set_name: String,
    /// Sub-bucket of the set; empty when the set has none.
    pub category: String,
    /// The posts of the set.
    pub posts: Vec<GrabbedPost>,
}

/// What a grabber hands over once every tag group is resolved.
#[derive(Clone, Debug, PartialEq, Eq)]
pub struct Grabber {
    /// One set for each tag group, in the order of the groups.
    pub grabbed_posts: Vec<PostSet>,
    /// The posts that were asked for by their own identifier.
    pub grabbed_single_posts: PostSet,
}

/// Why a grabber could not resolve the tag groups into posts.
#[derive(Clone, Copy, Debug, PartialEq, Eq)]
pub enum GrabError {
    /// The search could not be carried out or its answer not be read.
    SearchFailed,
}

/// A post as a mathematical value.
pub struct GrabbedPostView {
    pub file_name: Seq<char>,
    pub file_url: Seq<char>,
    pub file_size: int,
}

/// A set of posts as a mathematical value.
pub struct PostSetView {
    pub set_name: Seq<char>,
    pub category: Seq<char>,
    pub posts: Seq<GrabbedPostView>,
}

impl View for GrabbedPost {
    type V = GrabbedPostView;

    open spec fn view(&self) -> GrabbedPostView {
        GrabbedPostView {
            file_name: self.file_name@,
            file_url: self.file_url@,
            file_size: self.file_size as int,
        }
    }
}

impl View for PostSet {
    type V = PostSetView;

    open spec fn view(&self) -> PostSetView {
        PostSetView {
            set_name: self.set_name@,
            category: self.category@,
            posts: self.posts@.map_values(|post: GrabbedPost| post@),
        }
    }
}

/// The views of a list of sets, in the same order.
pub open spec fn views_of(sets: Seq<PostSet>) -> Seq<PostSetView> {
    sets.map_values(|set: PostSet| set@)
}

/// A name that can stand as the last component of a path: it is not empty
/// and holds no separator.
pub open spec fn is_leaf_name(name: Seq<char>) -> bool {
    &&& name.len() > 0
    &&& forall|i: int| 0 <= i < name.len() ==> #[trigger] name[i] != '/' && name[i] != '\\'
}

impl PostSetView {
    /// The file names of the set's posts, in the order of the posts.
    pub open spec fn file_names(self) -> Seq<Seq<char>> {
        self.posts.map_values(|post: GrabbedPostView| post.file_name)
    }

    /// The set has a name, every post has a leaf name for its file, and no
    /// two posts of the set share a file name.
    pub open spec fn well_formed(self) -> bool {
        &&& self.set_name.len() > 0
        &&& forall|i: int|
            0 <= i < self.posts.len() ==> is_leaf_name((#[trigger] self.posts[i]).file_name)
        &&& forall|i: int, j: int|
            0 <= i < j < self.posts.len() ==> (#[trigger] self.posts[i]).file_name != (
            #[trigger] self.posts[j]).file_name
    }
}

/// Tells whether `name` can stand as the last component of a path.
pub fn leaf_name(name: &str) -> (valid: bool)
    ensures
        valid == is_leaf_name(name@),
{
    let mut free = true;
    for c in it: name.chars()
        invariant
            it.seq() == name@,
            free == (forall|i: int|
                0 <= i < it.index() ==> #[trigger] name@[i] != '/' && name@[i] != '\\'),
    {
        if c == '/' || c == '\\' {
            free = false;
        }
    }
    free && !name.is_empty()
}

impl PostSet {
    /// Tells whether no post before position `upto` has the file name of the
    /// post at `upto`.
    fn name_is_new(&self, upto: usize) -> (fresh: bool)
        requires
            upto < self.posts.len(),
        ensures
            fresh == (forall|i: int|
                0 <= i < upto ==> (#[trigger] self@.posts[i]).file_name
                    != self@.posts[upto as int].file_name),
    {
        let mut i: usize = 0;
        while i < upto
            invariant
                i <= upto < self.posts.len(),
                forall|k: int|
                    0 <= k < i ==> (#[trigger] self@.posts[k]).file_name
                        != self@.posts[upto as int].file_name,
            decreases upto - i,
        {
            assert(self@.posts[i as int] == self.posts@[i as int]@);
            if same(self.posts[i].file_name.as_str(), self.posts[upto].file_name.as_str()) {
                return false;
            }
            i = i + 1;
        }
        true
    }

    /// Tells whether the set keeps the rules of its kind: a name, leaf names
    /// for the files, and no file name twice.
    pub fn is_well_formed(&self) -> (valid: bool)
        ensures
            valid == self@.well_formed(),
    {
        if self.set_name.as_str().is_empty() {
            return false;
        }
        let mut j: usize = 0;
        while j < self.posts.len()
            invariant
                j <= self.posts.len(),
                self@.set_name.len() > 0,
                forall|k: int|
                    0 <= k < j ==> is_leaf_name((#[trigger] self@.posts[k]).file_name),
                forall|a: int, b: int|
                    0 <= a < b < j ==> (#[trigger] self@.posts[a]).file_name != (
                    #[trigger] self@.posts[b]).file_name,
            decreases self.posts.len() - j,
        {
            assert(self@.posts[j as int] == self.posts@[j as int]@);
            if !leaf_name(self.posts[j].file_name.as_str()) || !self.name_is_new(j) {
                return false;
            }
            j = j + 1;
        }
        true
    }
}

} // verus!
