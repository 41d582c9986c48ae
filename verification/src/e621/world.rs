//! A disk and a network as mathematical values, and a download run carried
//! out against them.
//!
//! Nothing here runs: the model says what a caller does that answers every
//! action truthfully, on a disk that refuses some directories and some files
//! and over a network that serves some addresses and fails on the others.
//! Nobody else touches the disk while the run goes on. What the run leaves
//! behind is stated twice, step by step (`drive`) and post by post
//! (`run_outcome`), and the two are proved to agree.

use vstd::prelude::*;
use crate::e621::download::{next, ActionView, DownloadError, DownloadView, EventView, Phase};
use crate::e621::grabber::{GrabbedPostView, PostSetView};
use crate::e621::paths::directory_of;

verus! {

/// The surroundings of a run.
pub struct World {
    /// The files on disk, by path, with their bytes.
    pub files: Map<Seq<char>, Seq<u8>>,
    /// The directories on disk.
    pub directories: Set<Seq<char>>,
    /// The addresses that the network serves, with the bytes it serves.
    pub network: Map<Seq<char>, Seq<u8>>,
    /// The addresses that were asked of the network, in the order of asking.
    pub fetched: Seq<Seq<char>>,
    /// The directories that the disk refuses to create.
    pub refused_directories: Set<Seq<char>>,
    /// The paths at which the disk refuses to write a file.
    pub refused_files: Set<Seq<char>>,
}

/// What carrying out `action` does to the world, and what is reported back.
pub open spec fn reply(world: World, action: ActionView) -> (World, EventView) {
    match action {
        ActionView::CheckFile { path } => (world, EventView::Exists(world.files.contains_key(path))),
        ActionView::CheckDirectory { directory } => (
            world,
            EventView::Exists(world.directories.contains(directory)),
        ),
        ActionView::CreateDirectory { directory } => if world.refused_directories.contains(
            directory,
        ) {
            (world, EventView::Failed)
        } else {
            (World { directories: world.directories.insert(directory), ..world }, EventView::Done)
        },
        ActionView::Fetch { url, size } => (
            World { fetched: world.fetched.push(url), ..world },
            if world.network.contains_key(url) {
                EventView::Fetched(world.network[url])
            } else {
                EventView::Failed
            },
        ),
        ActionView::Write { path, bytes } => if world.refused_files.contains(path) {
            (world, EventView::Failed)
        } else {
            (World { files: world.files.insert(path, bytes), ..world }, EventView::Done)
        },
        _ => (world, EventView::Done),
    }
}

/// The run, the pending action and the world after `steps` actions have been
/// carried out and reported.
pub open spec fn drive(state: DownloadView, action: ActionView, world: World, steps: nat) -> (
    DownloadView,
    ActionView,
    World,
)
    decreases steps,
{
    if steps == 0 {
        (state, action, world)
    } else {
        let (changed, event) = reply(world, action);
        let (follower, request) = next(state, event);
        drive(follower, request, changed, (steps - 1) as nat)
    }
}

/// The state in which a post has been dealt with: the progress count is one
/// higher, and the next post of the set is due, or the end of the set.
pub open spec fn moved_on(state: DownloadView) -> DownloadView {
    state.at(Phase::Progress { duplicate: false }).after(EventView::Done)
}

/// What dealing with one post leaves behind. A post whose file is on disk
/// changes nothing. For any other the directory is created if it is missing,
/// then the network is asked once, then the file is written; the first of the
/// three that fails stops the run, and what was done before it stays done.
pub open spec fn post_outcome(world: World, directory: Seq<char>, post: GrabbedPostView) -> (
    World,
    Option<DownloadError>,
) {
    let path = directory + post.file_name;
    if world.files.contains_key(path) {
        (world, None)
    } else if !world.directories.contains(directory) && world.refused_directories.contains(
        directory,
    ) {
        (world, Some(DownloadError::DirectoryFailed))
    } else {
        let asked = World {
            directories: world.directories.insert(directory),
            fetched: world.fetched.push(post.file_url),
            ..world
        };
        if !world.network.contains_key(post.file_url) {
            (asked, Some(DownloadError::FetchFailed))
        } else if world.refused_files.contains(path) {
            (asked, Some(DownloadError::WriteFailed))
        } else {
            (World { files: world.files.insert(path, world.network[post.file_url]), ..asked }, None)
        }
    }
}

/// The position in `posts` of the post that is dealt with when `dealt` posts
/// are behind: the last post comes first.
pub open spec fn turn_of(posts: Seq<GrabbedPostView>, dealt: nat) -> int {
    posts.len() - 1 - dealt
}

/// What dealing with the posts of a set leaves behind, `dealt` of them being
/// dealt with already: the world, the number of posts dealt with in the end,
/// and the error that stopped the run, if one did.
pub open spec fn set_outcome(
    world: World,
    directory: Seq<char>,
    posts: Seq<GrabbedPostView>,
    dealt: nat,
) -> (World, nat, Option<DownloadError>)
    decreases posts.len() - dealt,
{
    if dealt >= posts.len() {
        (world, dealt, None)
    } else {
        let (changed, error) = post_outcome(world, directory, posts[turn_of(posts, dealt)]);
        if error is Some {
            (changed, dealt, error)
        } else {
            set_outcome(changed, directory, posts, dealt + 1)
        }
    }
}

/// The directory of the set at position `index`.
pub open spec fn directory_at(root: Seq<char>, sets: Seq<PostSetView>, index: int) -> Seq<char> {
    directory_of(root, sets[index].category, sets[index].set_name)
}

/// What a run over the sets from position `from` on leaves behind: the world
/// and the run's result.
pub open spec fn run_outcome(world: World, root: Seq<char>, sets: Seq<PostSetView>, from: nat) -> (
    World,
    Result<(), DownloadError>,
)
    decreases sets.len() - from,
{
    if from >= sets.len() {
        (world, Ok(()))
    } else {
        let (changed, dealt, error) = set_outcome(
            world,
            directory_at(root, sets, from as int),
            sets[from as int].posts,
            0,
        );
        match error {
            Some(error) => (changed, Err(error)),
            None => run_outcome(changed, root, sets, from + 1),
        }
    }
}

/// The path of the file of the post at position `post` of the set at
/// position `set`.
pub open spec fn file_path_at(root: Seq<char>, sets: Seq<PostSetView>, set: int, post: int) -> Seq<
    char,
> {
    directory_at(root, sets, set) + sets[set].posts[post].file_name
}

/// `path` is where the file of one of the posts at the positions from `low`
/// up to, but without, `high` goes.
pub open spec fn is_file_of(
    directory: Seq<char>,
    posts: Seq<GrabbedPostView>,
    low: int,
    high: int,
    path: Seq<char>,
) -> bool {
    exists|i: int| low <= i < high && path == directory + (#[trigger] posts[i]).file_name
}

/// `path` is where the file of one of the posts of the sets from position
/// `from` on goes.
pub open spec fn is_file_of_run(root: Seq<char>, sets: Seq<PostSetView>, from: int, path: Seq<char>) -> bool {
    exists|i: int, j: int|
        from <= i < sets.len() && 0 <= j < sets[i].posts.len() && path == #[trigger] file_path_at(
            root,
            sets,
            i,
            j,
        )
}

/// Every post of the sets from position `from` on has its file on disk.
pub open spec fn has_all_files(world: World, root: Seq<char>, sets: Seq<PostSetView>, from: int) -> bool {
    forall|i: int, j: int|
        from <= i < sets.len() && 0 <= j < sets[i].posts.len() ==> world.files.contains_key(
            #[trigger] file_path_at(root, sets, i, j),
        )
}

/// Every file of `before` is a file of `after`, with the same bytes.
pub open spec fn keeps_files(before: World, after: World) -> bool {
    forall|path: Seq<char>| #[trigger]
        before.files.contains_key(path) ==> after.files.contains_key(path) && after.files[path]
            == before.files[path]
}

/// The bytes that an action carries; none unless it is a write.
pub open spec fn bytes_of(action: ActionView) -> Seq<u8> {
    match action {
        ActionView::Write { bytes, .. } => bytes,
        _ => Seq::empty(),
    }
}

/// `action` is the action that `state` is waiting for.
pub open spec fn is_pending(state: DownloadView, action: ActionView) -> bool {
    action == state.request(bytes_of(action))
}

/// Carrying out a number of actions and then some more is carrying out all
/// of them in one go.
pub proof fn lemma_drive_split(
    state: DownloadView,
    action: ActionView,
    world: World,
    first: nat,
    second: nat,
)
    ensures
        drive(state, action, world, first + second) == ({
            let (between, pending, changed) = drive(state, action, world, first);
            drive(between, pending, changed, second)
        }),
    decreases first,
{
    if first > 0 {
        let (changed, event) = reply(world, action);
        let (follower, request) = next(state, event);
        lemma_drive_split(follower, request, changed, (first - 1) as nat, second);
        assert(drive(state, action, world, first + second) == drive(
            follower,
            request,
            changed,
            (first + second - 1) as nat,
        ));
    }
}

/// Dealing with one post, step by step, leaves behind what `post_outcome`
/// says. The number of steps that it takes is returned.
pub proof fn lemma_post_run(state: DownloadView, world: World) -> (steps: nat)
    requires
        state.well_formed(),
        state.phase is CheckFile,
    ensures
        ({
            let (left, error) = post_outcome(world, state.directory(), state.current_post());
            let target = match error {
                None => moved_on(state),
                Some(error) => state.failed(error),
            };
            drive(state, state.request(Seq::empty()), world, steps) == (
                target,
                target.request(Seq::empty()),
                left,
            )
        }),
{
    reveal_with_fuel(drive, 7);
    let directory = state.directory();
    let path = state.path();
    let served = world.network.contains_key(state.current_post().file_url);
    let written = served && !world.refused_files.contains(path);
    if world.files.contains_key(path) {
        2
    } else if world.directories.contains(directory) {
        assert(world.directories.insert(directory) =~= world.directories);
        if written {
            5
        } else if served {
            4
        } else {
            3
        }
    } else if world.refused_directories.contains(directory) {
        3
    } else {
        if written {
            6
        } else if served {
            5
        } else {
            4
        }
    }
}

/// Dealing with the posts of a set that are still due, step by step, leaves
/// behind what `set_outcome` says: the set at its end, or the run stopped at
/// the post that failed.
pub proof fn lemma_set_run(state: DownloadView, world: World) -> (steps: nat)
    requires
        state.well_formed(),
        state.phase is CheckFile || state.phase is FinishSet,
    ensures
        ({
            let posts = state.current_set().posts;
            let (left, dealt, error) = set_outcome(world, state.directory(), posts, state.post_index);
            let target = match error {
                None => DownloadView { post_index: posts.len(), phase: Phase::FinishSet, ..state },
                Some(error) => DownloadView { post_index: dealt, ..state }.failed(error),
            };
            drive(state, state.request(Seq::empty()), world, steps) == (
                target,
                target.request(Seq::empty()),
                left,
            )
        }),
    decreases state.current_set().posts.len() - state.post_index,
{
    if state.phase is FinishSet {
        0
    } else {
        let first = lemma_post_run(state, world);
        let (changed, error) = post_outcome(world, state.directory(), state.current_post());
        if error is Some {
            first
        } else {
            let rest = lemma_set_run(moved_on(state), changed);
            lemma_drive_split(state, state.request(Seq::empty()), world, first, rest);
            first + rest
        }
    }
}

/// A run from the beginning of a set on, step by step, ends, and leaves
/// behind what `run_outcome` says. The number of steps that it takes is
/// returned.
pub proof fn lemma_run(state: DownloadView, world: World) -> (steps: nat)
    requires
        state.well_formed(),
        state.phase is BeginSet,
    ensures
        ({
            let (left, result) = run_outcome(world, state.root, state.sets, state.set_index);
            let (end, last, found) = drive(state, state.request(Seq::empty()), world, steps);
            &&& end.phase == Phase::Finished { result }
            &&& last == ActionView::Finish { result }
            &&& found == left
            &&& end.root == state.root
            &&& end.sets == state.sets
        }),
    decreases state.sets.len() - state.set_index,
{
    let opening = state.request(Seq::empty());
    let (opened, due) = next(state, EventView::Done);
    assert(drive(state, opening, world, 1) == (opened, due, world)) by {
        reveal_with_fuel(drive, 2);
    }
    let middle = lemma_set_run(opened, world);
    lemma_drive_split(state, opening, world, 1, middle);
    let (left, dealt, error) = set_outcome(
        world,
        directory_at(state.root, state.sets, state.set_index as int),
        state.current_set().posts,
        0,
    );
    match error {
        Some(stopped) => {
            1 + middle
        },
        None => {
            let (closing, pending, changed) = drive(state, opening, world, 1 + middle);
            let (closed, following) = next(closing, EventView::Done);
            assert(drive(closing, pending, changed, 1) == (closed, following, changed)) by {
                reveal_with_fuel(drive, 2);
            }
            lemma_drive_split(state, opening, world, 1 + middle, 1);
            if state.set_index + 1 < state.sets.len() {
                let rest = lemma_run(closed, changed);
                lemma_drive_split(state, opening, world, 1 + middle + 1, rest);
                1 + middle + 1 + rest
            } else {
                assert(run_outcome(left, state.root, state.sets, state.set_index + 1) == (
                    left,
                    Ok::<(), DownloadError>(()),
                ));
                1 + middle + 1
            }
        },
    }
}

/// What dealing with the posts of a set leaves behind: the posts that were
/// dealt with have their files, the files that were there are there still
/// with their bytes, every other file is the file of a post that was dealt
/// with, and the run got to the end of the set exactly when nothing stopped
/// it.
pub proof fn lemma_set_outcome_layout(
    world: World,
    directory: Seq<char>,
    posts: Seq<GrabbedPostView>,
    dealt: nat,
)
    requires
        dealt <= posts.len(),
    ensures
        ({
            let (left, reached, error) = set_outcome(world, directory, posts, dealt);
            &&& dealt <= reached <= posts.len()
            &&& error is None <==> reached == posts.len()
            &&& left.network == world.network
            &&& keeps_files(world, left)
            &&& forall|i: int|
                posts.len() - reached <= i < posts.len() - dealt ==> left.files.contains_key(
                    directory + (#[trigger] posts[i]).file_name,
                )
            &&& forall|path: Seq<char>| #[trigger]
                left.files.contains_key(path) ==> world.files.contains_key(path) || is_file_of(
                    directory,
                    posts,
                    posts.len() - reached,
                    posts.len() - dealt,
                    path,
                )
        }),
    decreases posts.len() - dealt,
{
    if dealt < posts.len() {
        let turn = turn_of(posts, dealt);
        let (changed, error) = post_outcome(world, directory, posts[turn]);
        if error is None {
            lemma_set_outcome_layout(changed, directory, posts, dealt + 1);
            let (left, reached, stopped) = set_outcome(changed, directory, posts, dealt + 1);
            assert(keeps_files(world, left)) by {
                assert forall|path: Seq<char>| #[trigger]
                    world.files.contains_key(path) implies left.files.contains_key(path)
                    && left.files[path] == world.files[path] by {
                    assert(changed.files.contains_key(path));
                }
            }
            assert forall|i: int|
                posts.len() - reached <= i < posts.len() - dealt implies left.files.contains_key(
                directory + (#[trigger] posts[i]).file_name,
            ) by {
                if i == turn {
                    assert(changed.files.contains_key(directory + posts[turn].file_name));
                }
            }
        }
    }
}

/// Where every post that is still due has its file, dealing with them
/// changes nothing and gets to the end of the set.
pub proof fn lemma_settled_set(
    world: World,
    directory: Seq<char>,
    posts: Seq<GrabbedPostView>,
    dealt: nat,
)
    requires
        dealt <= posts.len(),
        forall|i: int|
            0 <= i < posts.len() - dealt ==> world.files.contains_key(
                directory + (#[trigger] posts[i]).file_name,
            ),
    ensures
        set_outcome(world, directory, posts, dealt) == (world, posts.len(), None::<DownloadError>),
    decreases posts.len() - dealt,
{
    if dealt < posts.len() {
        lemma_settled_set(world, directory, posts, dealt + 1);
    }
}

/// What a run leaves behind: the files that were there are there still with
/// their bytes, every other file is the file of a post, and after a run that
/// ended well every post has its file.
pub proof fn lemma_run_outcome_layout(
    world: World,
    root: Seq<char>,
    sets: Seq<PostSetView>,
    from: nat,
)
    requires
        from <= sets.len(),
    ensures
        ({
            let (left, result) = run_outcome(world, root, sets, from);
            &&& left.network == world.network
            &&& keeps_files(world, left)
            &&& result is Ok ==> has_all_files(left, root, sets, from as int)
            &&& forall|path: Seq<char>| #[trigger]
                left.files.contains_key(path) ==> world.files.contains_key(path) || is_file_of_run(
                    root,
                    sets,
                    from as int,
                    path,
                )
        }),
    decreases sets.len() - from,
{
    if from < sets.len() {
        let directory = directory_at(root, sets, from as int);
        let posts = sets[from as int].posts;
        lemma_set_outcome_layout(world, directory, posts, 0);
        let (changed, reached, error) = set_outcome(world, directory, posts, 0);
        let (left, result) = run_outcome(world, root, sets, from);
        if error is None {
            lemma_run_outcome_layout(changed, root, sets, from + 1);
        }
        assert forall|path: Seq<char>| #[trigger] left.files.contains_key(path) implies (
        world.files.contains_key(path) || is_file_of_run(root, sets, from as int, path)) by {
            if !world.files.contains_key(path) {
                if changed.files.contains_key(path) {
                    let j = choose|j: int|
                        posts.len() - reached <= j < posts.len() - 0 && path == directory + (
                        #[trigger] posts[j]).file_name;
                    assert(path == file_path_at(root, sets, from as int, j));
                }
            }
        }
    }
}

/// Where every post has its file, a run changes nothing and ends well.
pub proof fn lemma_settled_run(world: World, root: Seq<char>, sets: Seq<PostSetView>, from: nat)
    requires
        from <= sets.len(),
        has_all_files(world, root, sets, from as int),
    ensures
        run_outcome(world, root, sets, from) == (world, Ok::<(), DownloadError>(())),
    decreases sets.len() - from,
{
    if from < sets.len() {
        let directory = directory_at(root, sets, from as int);
        let posts = sets[from as int].posts;
        assert forall|j: int| 0 <= j < posts.len() - 0 implies world.files.contains_key(
            directory + (#[trigger] posts[j]).file_name,
        ) by {
            assert(world.files.contains_key(file_path_at(root, sets, from as int, j)));
        }
        lemma_settled_set(world, directory, posts, 0);
        lemma_settled_run(world, root, sets, from + 1);
    }
}

/// What is pending stays pending: as long as the caller starts with the
/// action that the run is waiting for, the action in its hands is always the
/// one that the run is waiting for.
pub proof fn lemma_drive_keeps_pending(
    state: DownloadView,
    action: ActionView,
    world: World,
    steps: nat,
)
    requires
        is_pending(state, action),
    ensures
        is_pending(drive(state, action, world, steps).0, drive(state, action, world, steps).1),
    decreases steps,
{
    if steps > 0 {
        let (changed, event) = reply(world, action);
        let (follower, request) = next(state, event);
        lemma_drive_keeps_pending(follower, request, changed, (steps - 1) as nat);
    }
}

/// A finished run stays where it is, and so does the world.
pub proof fn lemma_finished_stays(state: DownloadView, action: ActionView, world: World, steps: nat)
    requires
        state.phase is Finished,
        is_pending(state, action),
    ensures
        drive(state, action, world, steps) == (state, action, world),
    decreases steps,
{
    if steps > 0 {
        lemma_finished_stays(state, action, world, (steps - 1) as nat);
    }
}

/// However many steps a caller takes, once the run is finished the world is
/// the one that `run_outcome` gives, and so is the result.
pub proof fn lemma_finished_run_outcome(state: DownloadView, world: World, steps: nat)
    requires
        state.well_formed(),
        state.phase is BeginSet,
        drive(state, state.request(Seq::empty()), world, steps).0.phase is Finished,
    ensures
        ({
            let (end, last, found) = drive(state, state.request(Seq::empty()), world, steps);
            let (left, result) = run_outcome(world, state.root, state.sets, state.set_index);
            &&& end.phase == Phase::Finished { result }
            &&& last == ActionView::Finish { result }
            &&& found == left
        }),
{
    let opening = state.request(Seq::empty());
    let enough = lemma_run(state, world);
    let (end, last, found) = drive(state, opening, world, steps);
    let (ended, closing, left) = drive(state, opening, world, enough);
    lemma_drive_keeps_pending(state, opening, world, steps);
    lemma_drive_keeps_pending(state, opening, world, enough);
    if steps <= enough {
        lemma_drive_split(state, opening, world, steps, (enough - steps) as nat);
        lemma_finished_stays(end, last, found, (enough - steps) as nat);
    } else {
        lemma_drive_split(state, opening, world, enough, (steps - enough) as nat);
        lemma_finished_stays(ended, closing, left, (steps - enough) as nat);
    }
}

} // verus!
