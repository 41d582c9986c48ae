//! Everything that concerns one post-search source: the connector that an
//! application drives, and the parts it is made of.

use vstd::prelude::*;
use crate::e621::download::{initial, Action, Download};
use crate::e621::grabber::{views_of, GrabError, Grabber, PostSet};
use crate::e621::io::{create_config, first_config, Config, ConfigError};
use crate::e621::paths::{sanitize, sanitized};
use crate::e621::prompt::{answer_of, parse_yes_no};
use crate::e621::sender::RequestSender;
use crate::e621::text::{lowercased, trimmed};

pub mod download;
pub mod grabber;
pub mod io;
pub mod laws;
pub mod paths;
pub mod prompt;
pub mod sender;
pub mod text;
pub mod world;

verus! {

/// The `WebConnector` is the mother of all requests sent. It knows how the
/// sender is set up and where downloads go, and it decides how posts are
/// downloaded.
pub struct WebConnector {
    /// The sender used for all API calls.
    request_sender: RequestSender,
    /// The root below which every file is written.
    download_directory: String,
}

/// A connector as a mathematical value.
pub struct WebConnectorView {
    /// Whether the connector's sender is on the safe endpoints.
    pub safe_mode: bool,
    /// The root below which every file is written.
    pub download_directory: Seq<char>,
}

impl View for WebConnector {
    type V = WebConnectorView;

    closed spec fn view(&self) -> WebConnectorView {
        WebConnectorView {
            safe_mode: self.request_sender.safe_mode(),
            download_directory: self.download_directory@,
        }
    }
}

impl WebConnector {
    /// Creates instance of `Self` for grabbing and downloading posts, with a
    /// copy of the sender and the download directory of the configuration
    /// that was loaded. Where none could be loaded, downloads go where the
    /// first configuration sends them.
    pub fn new(request_sender: &RequestSender, loaded: Result<Config, ConfigError>) -> (connector:
        Self)
        ensures
            connector@ == (WebConnectorView {
                safe_mode: request_sender.safe_mode(),
                download_directory: match loaded {
                    Ok(config) => config@.download_directory,
                    Err(_) => first_config().download_directory,
                },
            }),
    {
        let config = match loaded {
            Ok(config) => config,
            Err(_) => create_config(),
        };
        WebConnector { request_sender: *request_sender, download_directory: config.download_directory }
    }

    /// Reads the operator's answer to the question whether to enter safe
    /// mode. On a yes the sender is switched to the safe endpoints for good;
    /// on a no, and on a line that is no answer, nothing changes. Returns the
    /// answer; `None` means that the question has to be asked again.
    pub fn should_enter_safe_mode(&mut self, input: &str) -> (answer: Option<bool>)
        ensures
            answer == answer_of(trimmed(lowercased(input@))),
            final(self)@ == (WebConnectorView {
                safe_mode: old(self)@.safe_mode || answer == Some(true),
                ..old(self)@
            }),
    {
        let answer = parse_yes_no(input);
        self.enter_safe_mode_on(answer);
        answer
    }

    /// Acts on an answer to the safe mode question: a yes switches the sender
    /// to the safe endpoints, anything else leaves it as it is.
    pub fn enter_safe_mode_on(&mut self, answer: Option<bool>)
        ensures
            final(self)@ == (WebConnectorView {
                safe_mode: old(self)@.safe_mode || answer == Some(true),
                ..old(self)@
            }),
    {
        match answer {
            Some(true) => self.request_sender.update_to_safe(),
            _ => {},
        }
    }

    /// Takes what a grabber came back with and hands on all general posts
    /// and single posts (posts grabbed by its ID), or the grabber's error.
    pub fn grab_posts(&mut self, grabbed: Result<Grabber, GrabError>) -> (posts: Result<
        (Vec<PostSet>, PostSet),
        GrabError,
    >)
        ensures
            *final(self) == *old(self),
            match grabbed {
                Ok(grabber) => posts == Ok::<(Vec<PostSet>, PostSet), GrabError>(
                    (grabber.grabbed_posts, grabber.grabbed_single_posts),
                ),
                Err(error) => posts == Err::<(Vec<PostSet>, PostSet), GrabError>(error),
            },
    {
        match grabbed {
            Ok(grabber) => Ok((grabber.grabbed_posts, grabber.grabbed_single_posts)),
            Err(error) => Err(error),
        }
    }

    /// Removes invalid characters from directory name.
    pub fn remove_invalid_chars(&self, dir_name: &mut String)
        ensures
            final(dir_name)@ == sanitized(old(dir_name)@),
    {
        let clean = sanitize(dir_name.as_str());
        *dir_name = clean;
    }

    /// Downloads tuple of general posts and single posts: starts the run that
    /// takes the general sets in their order and the single posts last, and
    /// returns it with its first action.
    pub fn download_grabbed_posts(&mut self, grabbed_posts: (Vec<PostSet>, PostSet)) -> (run: (
        Download,
        Action,
    ))
        ensures
            *final(self) == *old(self),
            run.0@ == initial(
                old(self)@.download_directory,
                views_of(grabbed_posts.0@),
                grabbed_posts.1@,
            ),
            run.0@.well_formed(),
            run.1@ == run.0@.request(Seq::empty()),
    {
        let (sets, single) = grabbed_posts;
        Download::new(self.download_directory.as_str(), sets, single)
    }

    /// The sender used for all API calls.
    pub fn request_sender(&self) -> (sender: &RequestSender)
        ensures
            sender.safe_mode() == self@.safe_mode,
    {
        &self.request_sender
    }

    /// The root below which every file is written.
    pub fn download_directory(&self) -> (directory: &str)
        ensures
            directory@ == self@.download_directory,
    {
        self.download_directory.as_str()
    }
}

} // verus!
