//! The configuration that is kept on disk between runs, and the search for a
//! directory by name. Reading and writing are the caller's; the values and
//! the decisions are here.

use std::collections::HashMap;
use vstd::prelude::*;
use crate::e621::text::{contains, occurs_in, same};

verus! {

/// Name of the configuration file.
pub const CONFIG_NAME: &'static str = "config.json";

/// What a directory search answers when a listing holds no directory.
pub const NO_DIRECTORY: &'static str = "Hello";

/// Config that is used to do general setup.
#[derive(Clone, Debug, PartialEq, Eq)]
pub struct Config {
    /// Whether or not to create a directory for every tag used to search for images.
    pub create_directories: bool,
    /// The location of the download directory.
    pub download_directory: String,
    /// Holds all dates for every tag used.
    pub last_run: HashMap<String, String>,
    /// Which part should be used as the name, that of which are: "id", or "md5".
    pub part_used_as_name: String,
}

/// Why no configuration could be loaded.
#[derive(Clone, Copy, Debug, PartialEq, Eq)]
pub enum ConfigError {
    /// The file could not be read.
    Io,
    /// The file does not hold a configuration.
    Malformed,
}

/// A configuration as a mathematical value.
pub struct ConfigView {
    pub create_directories: bool,
    pub download_directory: Seq<char>,
    pub last_run: Map<String, String>,
    pub part_used_as_name: Seq<char>,
}

impl View for Config {
    type V = ConfigView;

    open spec fn view(&self) -> ConfigView {
        ConfigView {
            create_directories: self.create_directories,
            download_directory: self.download_directory@,
            last_run: self.last_run@,
            part_used_as_name: self.part_used_as_name@,
        }
    }
}

impl ConfigView {
    /// The part that names the files is one of the two that exist.
    pub open spec fn follows_schema(self) -> bool {
        self.part_used_as_name == "id"@ || self.part_used_as_name == "md5"@
    }
}

/// The configuration that a first run starts with: a directory for each tag,
/// downloads below `downloads/`, no earlier run, and files named by their
/// checksum.
pub open spec fn first_config() -> ConfigView {
    ConfigView {
        create_directories: true,
        download_directory: "downloads/"@,
        last_run: Map::empty(),
        part_used_as_name: "md5"@,
    }
}

/// The configuration that is written when none exists yet.
pub fn create_config() -> (config: Config)
    ensures
        config@ == first_config(),
{
    Config {
        create_directories: true,
        download_directory: String::from_str("downloads/"),
        last_run: HashMap::new(),
        part_used_as_name: String::from_str("md5"),
    }
}

/// Decides what a start has to write: nothing when the configuration file
/// exists, the first configuration when it is missing.
pub fn check_config(exists: bool) -> (missing: Option<Config>)
    ensures
        exists ==> missing is None,
        !exists ==> missing is Some && missing->0@ == first_config(),
{
    if exists {
        None
    } else {
        Some(create_config())
    }
}

/// Accepts a configuration that was read from disk if it follows the schema,
/// and hands it back unchanged; refuses it as malformed if it names a part
/// that does not exist.
pub fn get_config(parsed: Config) -> (loaded: Result<Config, ConfigError>)
    ensures
        parsed@.follows_schema() ==> loaded == Ok::<Config, ConfigError>(parsed),
        !parsed@.follows_schema() ==> loaded == Err::<Config, ConfigError>(ConfigError::Malformed),
{
    if same(parsed.part_used_as_name.as_str(), "id") || same(
        parsed.part_used_as_name.as_str(),
        "md5",
    ) {
        Ok(parsed)
    } else {
        Err(ConfigError::Malformed)
    }
}

/// One entry of a directory listing.
#[derive(Clone, Debug, PartialEq, Eq)]
pub struct Entry {
    /// The entry's path.
    pub path: String,
    /// Whether the entry is a directory.
    pub is_dir: bool,
}

/// Where a directory search goes after one listing.
#[derive(Clone, Debug, PartialEq, Eq)]
pub enum Search {
    /// The directory at this path carries the name that is looked for.
    Found(String),
    /// The search goes on inside the directory at this path.
    Descend(String),
    /// The listing holds no directory.
    Exhausted,
}

/// An entry as a mathematical value.
pub struct EntryView {
    pub path: Seq<char>,
    pub is_dir: bool,
}

/// A search step as a mathematical value.
pub enum SearchView {
    Found(Seq<char>),
    Descend(Seq<char>),
    Exhausted,
}

impl View for Entry {
    type V = EntryView;

    open spec fn view(&self) -> EntryView {
        EntryView { path: self.path@, is_dir: self.is_dir }
    }
}

impl View for Search {
    type V = SearchView;

    open spec fn view(&self) -> SearchView {
        match *self {
            Search::Found(path) => SearchView::Found(path@),
            Search::Descend(path) => SearchView::Descend(path@),
            Search::Exhausted => SearchView::Exhausted,
        }
    }
}

/// The step that a listing leads to. Only the first directory of the listing
/// counts: it is the one that was looked for if its path holds `target`, and
/// the place to search next if not. The entries behind it are never looked at.
pub open spec fn search_of(target: Seq<char>, entries: Seq<EntryView>) -> SearchView
    decreases entries.len(),
{
    if entries.len() == 0 {
        SearchView::Exhausted
    } else if entries[0].is_dir {
        if occurs_in(target, entries[0].path) {
            SearchView::Found(entries[0].path)
        } else {
            SearchView::Descend(entries[0].path)
        }
    } else {
        search_of(target, entries.drop_first())
    }
}

/// Decides from the listing of one directory where the search for a
/// directory named like `target` goes.
pub fn find_dir(target: &str, entries: &Vec<Entry>) -> (step: Search)
    ensures
        step@ == search_of(target@, entries@.map_values(|entry: Entry| entry@)),
{
    let ghost listing = entries@.map_values(|entry: Entry| entry@);
    let mut i: usize = 0;
    assert(listing.skip(0) =~= listing);
    while i < entries.len()
        invariant
            i <= entries.len(),
            listing == entries@.map_values(|entry: Entry| entry@),
            search_of(target@, listing) == search_of(target@, listing.skip(i as int)),
        decreases entries.len() - i,
    {
        let ghost rest = listing.skip(i as int);
        if entries[i].is_dir {
            let path = entries[i].path.clone();
            return if contains(path.as_str(), target) {
                Search::Found(path)
            } else {
                Search::Descend(path)
            };
        }
        assert(rest.drop_first() =~= listing.skip(i as int + 1));
        i = i + 1;
    }
    Search::Exhausted
}

} // verus!
