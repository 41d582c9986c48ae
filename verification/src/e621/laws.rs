//! What holds of every name, every step and every run.
//!
//! The statements about whole runs speak of a run that is carried out
//! against a disk and a network as the model of the surroundings describes
//! them.

use vstd::prelude::*;
use crate::e621::download::{initial, next, ActionView, DownloadView, EventView, Phase};
use crate::e621::grabber::PostSetView;
use crate::e621::paths::{directory_of, file_path_of, is_clean, sanitized};
use crate::e621::world::{
    drive, has_all_files, is_file_of_run, keeps_files, lemma_finished_run_outcome, lemma_run,
    lemma_run_outcome_layout, lemma_settled_run, moved_on, reply, World,
};

verus! {

/// A sanitized name is as long as the name it was made from and holds no
/// invalid character.
pub proof fn lemma_sanitized_is_clean(name: Seq<char>)
    ensures
        sanitized(name).len() == name.len(),
        is_clean(sanitized(name)),
{
}

/// Sanitizing a sanitized name changes nothing.
pub proof fn lemma_sanitized_twice(name: Seq<char>)
    ensures
        sanitized(sanitized(name)) == sanitized(name),
{
}

/// A name without invalid characters is its own sanitized name.
pub proof fn lemma_clean_name_is_kept(name: Seq<char>)
    requires
        is_clean(name),
    ensures
        sanitized(name) == name,
{
}

/// Whatever the name of the set, the path of a file holds no invalid
/// character, provided that the download root, the category and the file name
/// hold none.
pub proof fn lemma_path_is_clean(
    root: Seq<char>,
    category: Seq<char>,
    set_name: Seq<char>,
    file_name: Seq<char>,
)
    requires
        is_clean(root),
        is_clean(category),
        is_clean(file_name),
    ensures
        is_clean(directory_of(root, category, set_name)),
        is_clean(file_path_of(root, category, set_name, file_name)),
{
    lemma_sanitized_is_clean(set_name);
}

/// Two files of one directory have the same path only if they have the same
/// name.
pub proof fn lemma_paths_differ(directory: Seq<char>, first: Seq<char>, second: Seq<char>)
    requires
        first != second,
    ensures
        directory + first != directory + second,
{
    if directory + first == directory + second {
        assert((directory + first).subrange(directory.len() as int, (directory + first).len() as int)
            =~= first);
        assert((directory + second).subrange(
            directory.len() as int,
            (directory + second).len() as int,
        ) =~= second);
    }
}

/// In a set that keeps the rules of its kind no two posts go to the same
/// path: each post has a file of its own.
pub proof fn lemma_one_file_for_each_post(root: Seq<char>, set: PostSetView, first: int, second: int)
    requires
        set.well_formed(),
        0 <= first < second < set.posts.len(),
    ensures
        file_path_of(root, set.category, set.set_name, set.posts[first].file_name) != file_path_of(
            root,
            set.category,
            set.set_name,
            set.posts[second].file_name,
        ),
{
    lemma_paths_differ(
        directory_of(root, set.category, set.set_name),
        set.posts[first].file_name,
        set.posts[second].file_name,
    );
}

/// A step changes neither the download root nor the sets: every set keeps
/// its name, its category and its posts.
pub proof fn lemma_step_keeps_sets(state: DownloadView, event: EventView)
    ensures
        next(state, event).0.root == state.root,
        next(state, event).0.sets == state.sets,
{
}

/// Whatever a caller reports and however long it goes on, the run keeps its
/// download root and its sets: after the run every set has the name, the
/// category and the posts that it came with.
pub proof fn lemma_drive_keeps_sets(state: DownloadView, action: ActionView, world: World, steps: nat)
    ensures
        drive(state, action, world, steps).0.root == state.root,
        drive(state, action, world, steps).0.sets == state.sets,
    decreases steps,
{
    if steps > 0 {
        let (changed, event) = reply(world, action);
        let (follower, request) = next(state, event);
        lemma_drive_keeps_sets(follower, request, changed, (steps - 1) as nat);
    }
}

/// A step leads from a state whose positions fit to one whose positions fit.
pub proof fn lemma_step_keeps_well_formed(state: DownloadView, event: EventView)
    requires
        state.well_formed(),
    ensures
        next(state, event).0.well_formed(),
{
}

/// A post whose file exists is passed over: the report that the file is
/// there is answered by moving the progress display on, and once that is
/// done the progress count is one higher and the next post, or the end of
/// the set, is due. No fetch is asked for on the way.
pub proof fn lemma_existing_file_is_passed_over(state: DownloadView)
    requires
        state.well_formed(),
        state.phase is CheckFile,
    ensures
        ({
            let (noticed, shown) = next(state, EventView::Exists(true));
            let (moved, due) = next(noticed, EventView::Done);
            &&& shown == ActionView::Progress { duplicate: true }
            &&& moved.post_index == state.post_index + 1
            &&& moved.set_index == state.set_index
            &&& due is CheckFile || due is FinishSet
        }),
{
}

/// A post whose file is on disk costs two steps and no fetch: after them the
/// post is dealt with, and the world, the record of what was asked of the
/// network included, is as it was.
pub proof fn lemma_existing_file_costs_no_fetch(state: DownloadView, world: World)
    requires
        state.well_formed(),
        state.phase is CheckFile,
        world.files.contains_key(state.path()),
    ensures
        drive(state, state.request(Seq::empty()), world, 2) == (
            moved_on(state),
            moved_on(state).request(Seq::empty()),
            world,
        ),
{
    reveal_with_fuel(drive, 3);
}

/// A fetch is asked for only once the file was reported missing and the
/// directory is known to be there: the step that asks for it answers a
/// directory found or created, and the directory is looked for only after a
/// file was not found.
pub proof fn lemma_fetch_follows_missing_file(state: DownloadView, event: EventView)
    ensures
        next(state, event).1 is Fetch ==> (state.phase is CheckDirectory && event
            == EventView::Exists(true)) || (state.phase is CreateDirectory && event
            == EventView::Done),
        next(state, event).1 is CreateDirectory ==> state.phase is CheckDirectory && event
            == EventView::Exists(false),
        next(state, event).1 is CheckDirectory ==> state.phase is CheckFile && event
            == EventView::Exists(false),
{
}

/// A file is written only as the answer to a fetch that brought bytes, at the
/// path of the post that was fetched and with those bytes.
pub proof fn lemma_write_follows_fetch(state: DownloadView, event: EventView)
    requires
        next(state, event).1 is Write,
    ensures
        state.phase is Fetch,
        event is Fetched,
        next(state, event).1 == (ActionView::Write { path: state.path(), bytes: event->Fetched_0 }),
        state.path() == file_path_of(
            state.root,
            state.current_set().category,
            state.current_set().set_name,
            state.current_post().file_name,
        ),
{
}

/// What a finished run leaves on disk. The files that were there before are
/// there still, with the bytes they had, and every other file is the file of
/// one of the posts, at that post's path below the download root. After a run
/// that ended well every post of every set has its file.
pub proof fn lemma_finished_run_layout(
    root: Seq<char>,
    sets: Seq<PostSetView>,
    single: PostSetView,
    world: World,
    steps: nat,
)
    requires
        drive(
            initial(root, sets, single),
            initial(root, sets, single).request(Seq::empty()),
            world,
            steps,
        ).0.phase is Finished,
    ensures
        ({
            let start = initial(root, sets, single);
            let (end, last, left) = drive(start, start.request(Seq::empty()), world, steps);
            &&& keeps_files(world, left)
            &&& forall|path: Seq<char>| #[trigger]
                left.files.contains_key(path) ==> world.files.contains_key(path) || is_file_of_run(
                    root,
                    start.sets,
                    0,
                    path,
                )
            &&& end.phase == (Phase::Finished { result: Ok(()) }) ==> has_all_files(
                left,
                root,
                start.sets,
                0,
            )
        }),
{
    let start = initial(root, sets, single);
    lemma_finished_run_outcome(start, world, steps);
    lemma_run_outcome_layout(world, root, start.sets, 0);
}

/// Running again changes nothing: after a run that ended well, a second run
/// over the same sets ends well too and leaves the world exactly as it found
/// it. No file is written and the network is not asked once. The number of
/// steps that the second run takes is returned.
pub proof fn lemma_second_run_is_idle(
    root: Seq<char>,
    sets: Seq<PostSetView>,
    single: PostSetView,
    world: World,
    first: nat,
) -> (second: nat)
    requires
        drive(
            initial(root, sets, single),
            initial(root, sets, single).request(Seq::empty()),
            world,
            first,
        ).0.phase == (Phase::Finished { result: Ok(()) }),
    ensures
        ({
            let start = initial(root, sets, single);
            let left = drive(start, start.request(Seq::empty()), world, first).2;
            let (end, last, again) = drive(start, start.request(Seq::empty()), left, second);
            &&& end.phase == Phase::Finished { result: Ok(()) }
            &&& last == ActionView::Finish { result: Ok(()) }
            &&& again == left
            &&& again.fetched == left.fetched
        }),
{
    let start = initial(root, sets, single);
    let left = drive(start, start.request(Seq::empty()), world, first).2;
    lemma_finished_run_outcome(start, world, first);
    lemma_run_outcome_layout(world, root, start.sets, 0);
    lemma_settled_run(left, root, start.sets, 0);
    lemma_run(start, left)
}

} // verus!
