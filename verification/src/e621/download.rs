//! The download run, as a machine that never touches disk or network itself.
//!
//! The machine hands out one [`Action`] at a time. Its caller carries the
//! action out and reports what came of it as an [`Event`]; from the state and
//! the event the machine decides what is to be done next. Sets are taken in
//! order, the posts of a set oldest first, and a post whose file is already on
//! disk is passed over without a fetch.

use vstd::prelude::*;
use crate::e621::grabber::{GrabbedPost, GrabbedPostView, PostSet, PostSetView, views_of};
use crate::e621::paths::{directory_for, directory_of, file_path, sanitize, sanitized};

verus! {

/// Why a download run ended before its last post.
#[derive(Clone, Copy, Debug, PartialEq, Eq)]
pub enum DownloadError {
    /// The directory of a set could not be created.
    DirectoryFailed,
    /// The bytes of a post could not be fetched.
    FetchFailed,
    /// The file of a post could not be created or written.
    WriteFailed,
    /// The caller reported something that does not answer the action it was
    /// given.
    UnexpectedEvent,
}

/// What the machine is waiting for.
#[derive(Clone, Copy, Debug, PartialEq, Eq)]
pub enum Phase {
    /// The progress display of the current set is being opened.
    BeginSet,
    /// The caller looks whether the current post's file exists.
    CheckFile,
    /// The caller looks whether the current set's directory exists.
    CheckDirectory,
    /// The caller creates the current set's directory.
    CreateDirectory,
    /// The caller fetches the current post's bytes.
    Fetch,
    /// The caller writes the current post's file.
    Write,
    /// The caller moves the progress display on by one post.
    Progress { duplicate: bool },
    /// The progress display of the current set is being closed.
    FinishSet,
    /// The run is over.
    Finished { result: Result<(), DownloadError> },
}

/// What the caller is asked to do.
#[derive(Debug, PartialEq, Eq)]
pub enum Action {
    /// Open a progress display for a set of `total` posts under `label`.
    BeginSet { label: String, total: u64 },
    /// Report whether a file exists at `path`.
    CheckFile { path: String },
    /// Report whether `directory` exists.
    CheckDirectory { directory: String },
    /// Create `directory` and the directories above it.
    CreateDirectory { directory: String },
    /// Fetch the bytes at `url`; `size` is the length that was announced.
    Fetch { url: String, size: i64 },
    /// Write `bytes` to a new file at `path`.
    Write { path: String, bytes: Vec<u8> },
    /// Move the progress display on by one; `duplicate` tells that the post
    /// was passed over because its file was there already.
    Progress { duplicate: bool },
    /// Close the progress display of the set.
    FinishSet,
    /// Stop: the run is over with `result`.
    Finish { result: Result<(), DownloadError> },
}

/// What came of an action.
#[derive(Clone, Debug, PartialEq, Eq)]
pub enum Event {
    /// Answer to a question about a file or a directory.
    Exists(bool),
    /// The action was carried out.
    Done,
    /// The action could not be carried out.
    Failed,
    /// The bytes that a fetch brought.
    Fetched(Vec<u8>),
}

/// An action as a mathematical value.
pub enum ActionView {
    BeginSet { label: Seq<char>, total: nat },
    CheckFile { path: Seq<char> },
    CheckDirectory { directory: Seq<char> },
    CreateDirectory { directory: Seq<char> },
    Fetch { url: Seq<char>, size: int },
    Write { path: Seq<char>, bytes: Seq<u8> },
    Progress { duplicate: bool },
    FinishSet,
    Finish { result: Result<(), DownloadError> },
}

/// An event as a mathematical value.
pub enum EventView {
    Exists(bool),
    Done,
    Failed,
    Fetched(Seq<u8>),
}

impl View for Action {
    type V = ActionView;

    open spec fn view(&self) -> ActionView {
        match *self {
            Action::BeginSet { label, total } => ActionView::BeginSet {
                label: label@,
                total: total as nat,
            },
            Action::CheckFile { path } => ActionView::CheckFile { path: path@ },
            Action::CheckDirectory { directory } => ActionView::CheckDirectory {
                directory: directory@,
            },
            Action::CreateDirectory { directory } => ActionView::CreateDirectory {
                directory: directory@,
            },
            Action::Fetch { url, size } => ActionView::Fetch { url: url@, size: size as int },
            Action::Write { path, bytes } => ActionView::Write { path: path@, bytes: bytes@ },
            Action::Progress { duplicate } => ActionView::Progress { duplicate },
            Action::FinishSet => ActionView::FinishSet,
            Action::Finish { result } => ActionView::Finish { result },
        }
    }
}

impl View for Event {
    type V = EventView;

    open spec fn view(&self) -> EventView {
        match *self {
            Event::Exists(here) => EventView::Exists(here),
            Event::Done => EventView::Done,
            Event::Failed => EventView::Failed,
            Event::Fetched(bytes) => EventView::Fetched(bytes@),
        }
    }
}

impl EventView {
    /// The bytes that the event carries; none unless it reports a fetch.
    pub open spec fn payload(self) -> Seq<u8> {
        match self {
            EventView::Fetched(bytes) => bytes,
            _ => Seq::empty(),
        }
    }
}

/// The state of a download run as a mathematical value.
pub struct DownloadView {
    /// The download root, as configured.
    pub root: Seq<char>,
    /// The sets in the order in which they are downloaded.
    pub sets: Seq<PostSetView>,
    /// Position of the current set.
    pub set_index: nat,
    /// How many posts of the current set are dealt with: the progress count.
    pub post_index: nat,
    /// What the run is waiting for.
    pub phase: Phase,
}

impl DownloadView {
    /// The set that is being downloaded.
    pub open spec fn current_set(self) -> PostSetView {
        self.sets[self.set_index as int]
    }

    /// The post that is being downloaded. The posts of a set are taken from
    /// the last to the first, which is oldest first.
    pub open spec fn current_post(self) -> GrabbedPostView {
        let posts = self.current_set().posts;
        posts[posts.len() - 1 - self.post_index]
    }

    /// The directory of the current set.
    pub open spec fn directory(self) -> Seq<char> {
        directory_of(self.root, self.current_set().category, self.current_set().set_name)
    }

    /// The path of the current post's file.
    pub open spec fn path(self) -> Seq<char> {
        self.directory() + self.current_post().file_name
    }

    /// The phase is one in which a post is being dealt with.
    pub open spec fn on_post(self) -> bool {
        self.phase is CheckFile || self.phase is CheckDirectory || self.phase is CreateDirectory
            || self.phase is Fetch || self.phase is Write || self.phase is Progress
    }

    /// The positions fit the phase: an unfinished run stands on a set, on
    /// its first post's turn when the set begins, on one of its posts while
    /// a post is dealt with, and behind its last post when the set ends.
    pub open spec fn well_formed(self) -> bool {
        self.phase is Finished || {
            &&& self.set_index < self.sets.len()
            &&& self.phase is BeginSet ==> self.post_index == 0
            &&& self.on_post() ==> self.post_index < self.current_set().posts.len()
            &&& self.phase is FinishSet ==> self.post_index == self.current_set().posts.len()
        }
    }

    /// The same run in another phase.
    pub open spec fn at(self, phase: Phase) -> DownloadView {
        DownloadView { phase, ..self }
    }

    /// The run after it has ended with `error`.
    pub open spec fn failed(self, error: DownloadError) -> DownloadView {
        self.at(Phase::Finished { result: Err(error) })
    }

    /// The state that follows when the caller reports `event`.
    pub open spec fn after(self, event: EventView) -> DownloadView {
        match (self.phase, event) {
            (Phase::Finished { .. }, _) => self,
            (Phase::BeginSet, EventView::Done) => if self.current_set().posts.len() > 0 {
                self.at(Phase::CheckFile)
            } else {
                self.at(Phase::FinishSet)
            },
            (Phase::CheckFile, EventView::Exists(here)) => if here {
                self.at(Phase::Progress { duplicate: true })
            } else {
                self.at(Phase::CheckDirectory)
            },
            (Phase::CheckDirectory, EventView::Exists(here)) => if here {
                self.at(Phase::Fetch)
            } else {
                self.at(Phase::CreateDirectory)
            },
            (Phase::CreateDirectory, EventView::Done) => self.at(Phase::Fetch),
            (Phase::CreateDirectory, EventView::Failed) => self.failed(
                DownloadError::DirectoryFailed,
            ),
            (Phase::Fetch, EventView::Fetched(_)) => self.at(Phase::Write),
            (Phase::Fetch, EventView::Failed) => self.failed(DownloadError::FetchFailed),
            (Phase::Write, EventView::Done) => self.at(Phase::Progress { duplicate: false }),
            (Phase::Write, EventView::Failed) => self.failed(DownloadError::WriteFailed),
            (Phase::Progress { .. }, EventView::Done) => DownloadView {
                post_index: self.post_index + 1,
                phase: if self.post_index + 1 < self.current_set().posts.len() {
                    Phase::CheckFile
                } else {
                    Phase::FinishSet
                },
                ..self
            },
            (Phase::FinishSet, EventView::Done) => if self.set_index + 1 < self.sets.len() {
                DownloadView {
                    set_index: self.set_index + 1,
                    post_index: 0,
                    phase: Phase::BeginSet,
                    ..self
                }
            } else {
                self.at(Phase::Finished { result: Ok(()) })
            },
            _ => self.failed(DownloadError::UnexpectedEvent),
        }
    }

    /// The action that the state asks for. `bytes` is what the last event
    /// carried; only a write hands it on.
    pub open spec fn request(self, bytes: Seq<u8>) -> ActionView {
        match self.phase {
            Phase::BeginSet => ActionView::BeginSet {
                label: sanitized(self.current_set().set_name),
                total: self.current_set().posts.len(),
            },
            Phase::CheckFile => ActionView::CheckFile { path: self.path() },
            Phase::CheckDirectory => ActionView::CheckDirectory { directory: self.directory() },
            Phase::CreateDirectory => ActionView::CreateDirectory { directory: self.directory() },
            Phase::Fetch => ActionView::Fetch {
                url: self.current_post().file_url,
                size: self.current_post().file_size,
            },
            Phase::Write => ActionView::Write { path: self.path(), bytes },
            Phase::Progress { duplicate } => ActionView::Progress { duplicate },
            Phase::FinishSet => ActionView::FinishSet,
            Phase::Finished { result } => ActionView::Finish { result },
        }
    }
}

/// The first state of a run below `root`: the sets in their order, the set of
/// single posts behind them, and the first set about to begin.
pub open spec fn initial(root: Seq<char>, sets: Seq<PostSetView>, single: PostSetView) -> DownloadView {
    DownloadView {
        root,
        sets: sets.push(single),
        set_index: 0,
        post_index: 0,
        phase: Phase::BeginSet,
    }
}

/// One move of the machine: the state that follows `event`, and the action
/// which that state asks for.
pub open spec fn next(state: DownloadView, event: EventView) -> (DownloadView, ActionView) {
    let follower = state.after(event);
    (follower, follower.request(event.payload()))
}

/// A download run in progress.
pub struct Download {
    root: String,
    sets: Vec<PostSet>,
    set_index: usize,
    post_index: usize,
    phase: Phase,
}

impl View for Download {
    type V = DownloadView;

    closed spec fn view(&self) -> DownloadView {
        DownloadView {
            root: self.root@,
            sets: views_of(self.sets@),
            set_index: self.set_index as nat,
            post_index: self.post_index as nat,
            phase: self.phase,
        }
    }
}

impl Download {
    #[verifier::type_invariant]
    spec fn positions_fit(self) -> bool {
        self@.well_formed()
    }

    /// Starts a run below `root` over `sets` and, last, `single`. Returns the
    /// run and the first action.
    pub fn new(root: &str, sets: Vec<PostSet>, single: PostSet) -> (run: (Download, Action))
        ensures
            run.0@ == initial(root@, views_of(sets@), single@),
            run.1@ == run.0@.request(Seq::empty()),
            run.0@.well_formed(),
    {
        let mut all = sets;
        all.push(single);
        assert(views_of(all@) =~= views_of(sets@).push(single@));
        let first = Download {
            root: String::from_str(root),
            sets: all,
            set_index: 0,
            post_index: 0,
            phase: Phase::BeginSet,
        };
        let action = first.request(Vec::new());
        (first, action)
    }

    /// Takes the caller's report of the last action, moves on, and returns
    /// the run with the next action. A report that does not answer the last
    /// action ends the run with [`DownloadError::UnexpectedEvent`]; a
    /// finished run stays as it is. The sets are never touched.
    pub fn step(self, event: Event) -> (moved: (Download, Action))
        ensures
            (moved.0@, moved.1@) == next(self@, event@),
            moved.0@.root == self@.root,
            moved.0@.sets == self@.sets,
            self@.well_formed(),
            moved.0@.well_formed(),
    {
        proof {
            use_type_invariant(&self);
        }
        assert(self@.sets.len() == self.sets.len());
        let unexpected = Phase::Finished { result: Err(DownloadError::UnexpectedEvent) };
        let mut set_index = self.set_index;
        let mut post_index = self.post_index;
        let phase = match self.phase {
            Phase::Finished { result } => Phase::Finished { result },
            Phase::BeginSet => match &event {
                Event::Done => if self.sets[self.set_index].posts.len() > 0 {
                    Phase::CheckFile
                } else {
                    Phase::FinishSet
                },
                _ => unexpected,
            },
            Phase::CheckFile => match &event {
                Event::Exists(here) => if *here {
                    Phase::Progress { duplicate: true }
                } else {
                    Phase::CheckDirectory
                },
                _ => unexpected,
            },
            Phase::CheckDirectory => match &event {
                Event::Exists(here) => if *here {
                    Phase::Fetch
                } else {
                    Phase::CreateDirectory
                },
                _ => unexpected,
            },
            Phase::CreateDirectory => match &event {
                Event::Done => Phase::Fetch,
                Event::Failed => Phase::Finished { result: Err(DownloadError::DirectoryFailed) },
                _ => unexpected,
            },
            Phase::Fetch => match &event {
                Event::Fetched(_) => Phase::Write,
                Event::Failed => Phase::Finished { result: Err(DownloadError::FetchFailed) },
                _ => unexpected,
            },
            Phase::Write => match &event {
                Event::Done => Phase::Progress { duplicate: false },
                Event::Failed => Phase::Finished { result: Err(DownloadError::WriteFailed) },
                _ => unexpected,
            },
            Phase::Progress { .. } => match &event {
                Event::Done => {
                    assert(post_index < self.sets@[self.set_index as int].posts.len());
                    post_index = post_index + 1;
                    if post_index < self.sets[self.set_index].posts.len() {
                        Phase::CheckFile
                    } else {
                        Phase::FinishSet
                    }
                },
                _ => unexpected,
            },
            Phase::FinishSet => match &event {
                Event::Done => if set_index + 1 < self.sets.len() {
                    set_index = set_index + 1;
                    post_index = 0;
                    Phase::BeginSet
                } else {
                    Phase::Finished { result: Ok(()) }
                },
                _ => unexpected,
            },
        };
        let follower = Download { root: self.root, sets: self.sets, set_index, post_index, phase };
        let bytes = match event {
            Event::Fetched(bytes) => bytes,
            _ => Vec::new(),
        };
        let action = follower.request(bytes);
        (follower, action)
    }

    /// The action that the run is waiting for, built from its state. `bytes`
    /// is handed on by a write and dropped by every other action.
    fn request(&self, bytes: Vec<u8>) -> (action: Action)
        ensures
            action@ == self@.request(bytes@),
    {
        proof {
            use_type_invariant(self);
        }
        match self.phase {
            Phase::BeginSet => {
                let set = &self.sets[self.set_index];
                Action::BeginSet {
                    label: sanitize(set.set_name.as_str()),
                    total: set.posts.len() as u64,
                }
            },
            Phase::CheckFile => Action::CheckFile { path: self.path() },
            Phase::CheckDirectory => Action::CheckDirectory { directory: self.directory() },
            Phase::CreateDirectory => Action::CreateDirectory { directory: self.directory() },
            Phase::Fetch => {
                let post = self.post();
                Action::Fetch { url: post.file_url.clone(), size: post.file_size }
            },
            Phase::Write => Action::Write { path: self.path(), bytes },
            Phase::Progress { duplicate } => Action::Progress { duplicate },
            Phase::FinishSet => Action::FinishSet,
            Phase::Finished { result } => Action::Finish { result },
        }
    }

    /// The post whose turn it is.
    fn post(&self) -> (post: &GrabbedPost)
        requires
            self@.on_post(),
        ensures
            post@ == self@.current_post(),
    {
        proof {
            use_type_invariant(self);
        }
        let set = &self.sets[self.set_index];
        let position = set.posts.len() - 1 - self.post_index;
        &set.posts[position]
    }

    /// The directory of the set whose turn it is.
    fn directory(&self) -> (directory: String)
        requires
            !(self@.phase is Finished),
        ensures
            directory@ == self@.directory(),
    {
        proof {
            use_type_invariant(self);
        }
        let set = &self.sets[self.set_index];
        directory_for(self.root.as_str(), set.category.as_str(), set.set_name.as_str())
    }

    /// The path of the file of the post whose turn it is.
    fn path(&self) -> (path: String)
        requires
            self@.on_post(),
        ensures
            path@ == self@.path(),
    {
        let directory = self.directory();
        file_path(directory.as_str(), self.post().file_name.as_str())
    }

    /// How many posts of the current set are dealt with.
    pub fn progress(&self) -> (count: usize)
        ensures
            count == self@.post_index,
    {
        self.post_index
    }

    /// The outcome of the run, once it is over.
    pub fn result(&self) -> (outcome: Option<Result<(), DownloadError>>)
        ensures
            outcome == (match self@.phase {
                Phase::Finished { result } => Some(result),
                _ => None,
            }),
    {
        match self.phase {
            Phase::Finished { result } => Some(result),
            _ => None,
        }
    }

    /// The sets of the run, as they were handed in.
    pub fn sets(&self) -> (sets: &Vec<PostSet>)
        ensures
            views_of(sets@) == self@.sets,
    {
        &self.sets
    }
}

} // verus!
