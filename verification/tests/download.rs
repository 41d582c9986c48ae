use std::collections::{HashMap, HashSet};

use e621_downloader::e621::download::{Action, Download, DownloadError, Event};
use e621_downloader::e621::grabber::{GrabbedPost, PostSet};
use e621_downloader::e621::io::{create_config, Config};
use e621_downloader::e621::sender::RequestSender;
use e621_downloader::e621::WebConnector;

/// A disk and a network in memory, with a record of what was asked of them.
struct World {
    files: HashMap<String, Vec<u8>>,
    directories: HashSet<String>,
    network: HashMap<String, Vec<u8>>,
    read_only: HashSet<String>,
    no_new_directories: bool,
    fetched: Vec<(String, i64)>,
    written: Vec<String>,
    shown: Vec<String>,
    steps: usize,
}

impl World {
    fn new() -> World {
        World {
            files: HashMap::new(),
            directories: HashSet::new(),
            network: HashMap::new(),
            read_only: HashSet::new(),
            no_new_directories: false,
            fetched: Vec::new(),
            written: Vec::new(),
            shown: Vec::new(),
            steps: 0,
        }
    }

    fn serving(posts: &[&GrabbedPost]) -> World {
        let mut world = World::new();
        for post in posts {
            world.network.insert(post.file_url.clone(), post.file_name.clone().into_bytes());
        }
        world
    }

    fn answer(&mut self, action: Action) -> Event {
        self.steps += 1;
        match action {
            Action::BeginSet { label, total } => {
                self.shown.push(format!("begin {} {}", label, total));
                Event::Done
            }
            Action::CheckFile { path } => Event::Exists(self.files.contains_key(&path)),
            Action::CheckDirectory { directory } => Event::Exists(self.directories.contains(&directory)),
            Action::CreateDirectory { directory } => {
                if self.no_new_directories {
                    Event::Failed
                } else {
                    self.directories.insert(directory);
                    Event::Done
                }
            }
            Action::Fetch { url, size } => {
                self.fetched.push((url.clone(), size));
                match self.network.get(&url) {
                    Some(bytes) => Event::Fetched(bytes.clone()),
                    None => Event::Failed,
                }
            }
            Action::Write { path, bytes } => {
                if self.read_only.contains(&path) {
                    Event::Failed
                } else {
                    self.written.push(path.clone());
                    self.files.insert(path, bytes);
                    Event::Done
                }
            }
            Action::Progress { duplicate } => {
                self.shown.push(String::from(if duplicate { "skip" } else { "next" }));
                Event::Done
            }
            Action::FinishSet => {
                self.shown.push(String::from("end"));
                Event::Done
            }
            Action::Finish { .. } => unreachable!(),
        }
    }

    fn download(&mut self, config: &Config, sets: Vec<PostSet>, single: PostSet) -> (Download, Result<(), DownloadError>) {
        let mut connector = WebConnector::new(&RequestSender::new(), Ok(config.clone()));
        let (mut run, mut action) = connector.download_grabbed_posts((sets, single));
        loop {
            if let Action::Finish { result } = action {
                assert_eq!(run.result(), Some(result));
                return (run, result);
            }
            assert_eq!(run.result(), None);
            let event = self.answer(action);
            let (next_run, next_action) = run.step(event);
            run = next_run;
            action = next_action;
            assert!(self.steps < 10_000);
        }
    }
}

fn post(name: &str, size: i64) -> GrabbedPost {
    GrabbedPost { file_name: String::from(name), file_url: format!("http://x/{}", name), file_size: size }
}

fn set(name: &str, category: &str, posts: Vec<GrabbedPost>) -> PostSet {
    PostSet { set_name: String::from(name), category: String::from(category), posts }
}

fn nothing() -> PostSet {
    set("Single Posts", "", Vec::new())
}

fn sorted(names: Vec<String>) -> Vec<String> {
    let mut names = names;
    names.sort();
    names
}

#[test]
fn file_of_a_set_without_category_goes_below_the_sanitized_name() {
    let a = post("a.jpg", 100);
    let mut world = World::serving(&[&a]);
    let (_, result) = world.download(&create_config(), vec![set("fox:art", "", vec![a])], nothing());
    assert_eq!(result, Ok(()));
    assert_eq!(world.files.get("downloads/fox_art/a.jpg"), Some(&b"a.jpg".to_vec()));
    assert_eq!(world.written, vec![String::from("downloads/fox_art/a.jpg")]);
    assert_eq!(world.fetched, vec![(String::from("http://x/a.jpg"), 100)]);
    assert!(world.directories.contains("downloads/fox_art/"));
}

#[test]
fn file_of_a_set_with_category_goes_one_level_deeper() {
    let b = post("b.png", 5);
    let mut world = World::serving(&[&b]);
    let (_, result) = world.download(&create_config(), vec![set("fox", "safe", vec![b])], nothing());
    assert_eq!(result, Ok(()));
    assert_eq!(sorted(world.files.keys().cloned().collect()), vec![String::from("downloads/safe/fox/b.png")]);
    assert!(world.directories.contains("downloads/safe/fox/"));
}

#[test]
fn set_name_is_left_as_it_was() {
    let a = post("a.jpg", 100);
    let before = set("what? a:b*c<d>e\"f|g", "", vec![a.clone()]);
    let mut world = World::serving(&[&a]);
    let (run, result) = world.download(&create_config(), vec![before.clone()], nothing());
    assert_eq!(result, Ok(()));
    assert_eq!(run.sets()[0], before);
    assert_eq!(run.sets()[0].set_name, "what? a:b*c<d>e\"f|g");
    assert_eq!(world.written, vec![String::from("downloads/what_ a_b_c_d_e_f_g/a.jpg")]);
    assert_eq!(world.shown[0], "begin what_ a_b_c_d_e_f_g 1");
}

#[test]
fn existing_file_is_passed_over_without_a_fetch() {
    let a = post("a.jpg", 100);
    let mut world = World::serving(&[&a]);
    world.files.insert(String::from("downloads/fox/a.jpg"), b"old".to_vec());
    let (run, result) = world.download(&create_config(), Vec::new(), set("fox", "", vec![a]));
    assert_eq!(result, Ok(()));
    assert!(world.fetched.is_empty());
    assert!(world.written.is_empty());
    assert!(world.directories.is_empty());
    assert_eq!(world.files.get("downloads/fox/a.jpg"), Some(&b"old".to_vec()));
    assert_eq!(world.shown, vec!["begin fox 1", "skip", "end"]);
    assert_eq!(run.progress(), 1);
}

#[test]
fn progress_moves_once_for_each_post() {
    let posts = vec![post("a.jpg", 1), post("b.jpg", 2), post("c.jpg", 3)];
    let mut world = World::serving(&[&posts[0], &posts[1], &posts[2]]);
    world.files.insert(String::from("downloads/fox/b.jpg"), Vec::new());
    let (run, result) = world.download(&create_config(), Vec::new(), set("fox", "", posts));
    assert_eq!(result, Ok(()));
    assert_eq!(world.shown, vec!["begin fox 3", "next", "skip", "next", "end"]);
    assert_eq!(run.progress(), 3);
}

#[test]
fn posts_are_taken_oldest_first() {
    let posts = vec![post("newest.jpg", 1), post("middle.jpg", 2), post("oldest.jpg", 3)];
    let mut world = World::serving(&[&posts[0], &posts[1], &posts[2]]);
    let (_, result) = world.download(&create_config(), Vec::new(), set("fox", "", posts));
    assert_eq!(result, Ok(()));
    assert_eq!(
        world.fetched,
        vec![
            (String::from("http://x/oldest.jpg"), 3),
            (String::from("http://x/middle.jpg"), 2),
            (String::from("http://x/newest.jpg"), 1),
        ]
    );
}

#[test]
fn every_post_gets_one_file_at_its_place() {
    let wolf = vec![post("w1.png", 1), post("w2.png", 2)];
    let fox = vec![post("f1.jpg", 3)];
    let single = vec![post("s1.gif", 4)];
    let mut world = World::serving(&[&wolf[0], &wolf[1], &fox[0], &single[0]]);
    let sets = vec![set("wolf", "General Searches", wolf), set("fox|art", "", fox)];
    let (_, result) = world.download(&create_config(), sets, set("Single Posts", "", single));
    assert_eq!(result, Ok(()));
    assert_eq!(
        sorted(world.files.keys().cloned().collect()),
        vec![
            String::from("downloads/General Searches/wolf/w1.png"),
            String::from("downloads/General Searches/wolf/w2.png"),
            String::from("downloads/Single Posts/s1.gif"),
            String::from("downloads/fox_art/f1.jpg"),
        ]
    );
    assert_eq!(world.written.len(), 4);
    assert_eq!(world.fetched.len(), 4);
}

#[test]
fn sets_are_taken_in_order_and_single_posts_last() {
    let posts = [post("a", 1), post("b", 2), post("c", 3)];
    let mut world = World::serving(&[&posts[0], &posts[1], &posts[2]]);
    let sets = vec![set("one", "", vec![posts[0].clone()]), set("two", "", vec![posts[1].clone()])];
    let (_, result) = world.download(&create_config(), sets, set("single", "", vec![posts[2].clone()]));
    assert_eq!(result, Ok(()));
    assert_eq!(world.written, vec!["downloads/one/a", "downloads/two/b", "downloads/single/c"]);
    assert_eq!(
        world.shown,
        vec!["begin one 1", "next", "end", "begin two 1", "next", "end", "begin single 1", "next", "end"]
    );
}

#[test]
fn second_run_fetches_nothing() {
    let posts = vec![post("a.jpg", 1), post("b.jpg", 2)];
    let mut world = World::serving(&[&posts[0], &posts[1]]);
    let sets = vec![set("fox:art", "safe", posts)];
    let (_, first) = world.download(&create_config(), sets.clone(), nothing());
    assert_eq!(first, Ok(()));
    assert_eq!(world.fetched.len(), 2);
    let files = world.files.clone();
    let (_, second) = world.download(&create_config(), sets, nothing());
    assert_eq!(second, Ok(()));
    assert_eq!(world.fetched.len(), 2);
    assert_eq!(world.written.len(), 2);
    assert_eq!(world.files, files);
}

#[test]
fn repeated_file_name_is_fetched_once() {
    let posts = vec![post("a.jpg", 1), post("a.jpg", 1)];
    let mut world = World::serving(&[&posts[0]]);
    let (_, result) = world.download(&create_config(), Vec::new(), set("fox", "", posts));
    assert_eq!(result, Ok(()));
    assert_eq!(world.fetched.len(), 1);
    assert_eq!(world.shown, vec!["begin fox 2", "next", "skip", "end"]);
}

#[test]
fn directory_is_created_only_when_missing() {
    let posts = vec![post("a.jpg", 1), post("b.jpg", 2)];
    let mut world = World::serving(&[&posts[0], &posts[1]]);
    world.no_new_directories = true;
    world.directories.insert(String::from("downloads/fox/"));
    let (_, result) = world.download(&create_config(), Vec::new(), set("fox", "", posts));
    assert_eq!(result, Ok(()));
    assert_eq!(world.written.len(), 2);
}

#[test]
fn failed_directory_ends_the_run() {
    let posts = vec![post("a.jpg", 1)];
    let mut world = World::serving(&[&posts[0]]);
    world.no_new_directories = true;
    let (run, result) = world.download(&create_config(), Vec::new(), set("fox", "", posts));
    assert_eq!(result, Err(DownloadError::DirectoryFailed));
    assert!(world.fetched.is_empty());
    assert!(world.files.is_empty());
    assert_eq!(run.progress(), 0);
}

#[test]
fn failed_fetch_ends_the_run_and_keeps_what_was_written() {
    let posts = vec![post("newest.jpg", 1), post("broken.jpg", 2), post("oldest.jpg", 3)];
    let mut world = World::serving(&[&posts[0], &posts[2]]);
    let later = post("later.jpg", 4);
    world.network.insert(later.file_url.clone(), Vec::new());
    let (run, result) = world.download(&create_config(), vec![set("fox", "", posts)], set("single", "", vec![later]));
    assert_eq!(result, Err(DownloadError::FetchFailed));
    assert_eq!(world.written, vec!["downloads/fox/oldest.jpg"]);
    assert_eq!(world.fetched.len(), 2);
    assert_eq!(world.shown, vec!["begin fox 3", "next"]);
    assert_eq!(run.progress(), 1);
}

#[test]
fn failed_write_ends_the_run() {
    let posts = vec![post("b.jpg", 1), post("a.jpg", 2)];
    let mut world = World::serving(&[&posts[0], &posts[1]]);
    world.read_only.insert(String::from("downloads/fox/a.jpg"));
    let (_, result) = world.download(&create_config(), Vec::new(), set("fox", "", posts));
    assert_eq!(result, Err(DownloadError::WriteFailed));
    assert!(world.files.is_empty());
    assert_eq!(world.fetched.len(), 1);
}

#[test]
fn empty_sets_open_and_close_their_display() {
    let mut world = World::new();
    let (_, result) = world.download(&create_config(), vec![set("fox", "", Vec::new())], nothing());
    assert_eq!(result, Ok(()));
    assert_eq!(world.shown, vec!["begin fox 0", "end", "begin Single Posts 0", "end"]);
    assert_eq!(world.steps, 4);
}

#[test]
fn download_root_comes_from_the_configuration() {
    let a = post("a.jpg", 1);
    let mut world = World::serving(&[&a]);
    let config = Config { download_directory: String::from("/srv/media/"), ..create_config() };
    let (_, result) = world.download(&config, Vec::new(), set("fox", "pools", vec![a]));
    assert_eq!(result, Ok(()));
    assert_eq!(world.written, vec!["/srv/media/pools/fox/a.jpg"]);
}

#[test]
fn first_action_opens_the_first_set() {
    let (run, action) = Download::new("downloads/", vec![set("a:b", "", vec![post("x", 1), post("y", 2)])], nothing());
    assert_eq!(action, Action::BeginSet { label: String::from("a_b"), total: 2 });
    assert_eq!(run.progress(), 0);
    assert_eq!(run.result(), None);
    assert_eq!(run.sets().len(), 2);
}

#[test]
fn steps_of_a_fresh_post_follow_each_other() {
    let (run, _) = Download::new("d/", Vec::new(), set("s", "c", vec![post("x", 9)]));
    let (run, action) = run.step(Event::Done);
    assert_eq!(action, Action::CheckFile { path: String::from("d/c/s/x") });
    let (run, action) = run.step(Event::Exists(false));
    assert_eq!(action, Action::CheckDirectory { directory: String::from("d/c/s/") });
    let (run, action) = run.step(Event::Exists(false));
    assert_eq!(action, Action::CreateDirectory { directory: String::from("d/c/s/") });
    let (run, action) = run.step(Event::Done);
    assert_eq!(action, Action::Fetch { url: String::from("http://x/x"), size: 9 });
    let (run, action) = run.step(Event::Fetched(vec![1, 2, 3]));
    assert_eq!(action, Action::Write { path: String::from("d/c/s/x"), bytes: vec![1, 2, 3] });
    assert_eq!(run.progress(), 0);
    let (run, action) = run.step(Event::Done);
    assert_eq!(action, Action::Progress { duplicate: false });
    let (run, action) = run.step(Event::Done);
    assert_eq!(action, Action::FinishSet);
    assert_eq!(run.progress(), 1);
    let (run, action) = run.step(Event::Done);
    assert_eq!(action, Action::Finish { result: Ok(()) });
    assert_eq!(run.result(), Some(Ok(())));
}

#[test]
fn report_that_answers_nothing_ends_the_run() {
    let (run, _) = Download::new("d/", Vec::new(), set("s", "", vec![post("x", 9)]));
    let (run, _) = run.step(Event::Done);
    let (run, action) = run.step(Event::Fetched(vec![1]));
    assert_eq!(action, Action::Finish { result: Err(DownloadError::UnexpectedEvent) });
    assert_eq!(run.result(), Some(Err(DownloadError::UnexpectedEvent)));

    let (run, _) = Download::new("d/", Vec::new(), nothing());
    let (_, action) = run.step(Event::Exists(true));
    assert_eq!(action, Action::Finish { result: Err(DownloadError::UnexpectedEvent) });
}

#[test]
fn finished_run_stays_finished() {
    let (run, _) = Download::new("d/", Vec::new(), nothing());
    let (run, _) = run.step(Event::Done);
    let (run, action) = run.step(Event::Done);
    assert_eq!(action, Action::Finish { result: Ok(()) });
    for event in [Event::Done, Event::Failed, Event::Exists(true), Event::Fetched(vec![0])] {
        let (_, action) = Download::new("d/", Vec::new(), nothing()).0.step(Event::Failed).0.step(event);
        assert_eq!(action, Action::Finish { result: Err(DownloadError::UnexpectedEvent) });
    }
    let (run, action) = run.step(Event::Failed);
    assert_eq!(action, Action::Finish { result: Ok(()) });
    let (_, action) = run.step(Event::Fetched(vec![1]));
    assert_eq!(action, Action::Finish { result: Ok(()) });
}
