//! What the download run knows of the request sender.

use vstd::prelude::*;

verus! {

/// The sender's choice of endpoints. A sender starts on the ordinary
/// endpoints; once switched to the safe ones it stays there.
#[derive(Clone, Copy, Debug, PartialEq, Eq)]
pub struct RequestSender {
    safe: bool,
}

impl RequestSender {
    /// Whether requests go to the safe endpoints.
    pub closed spec fn safe_mode(&self) -> bool {
        self.safe
    }

    /// A sender on the ordinary endpoints.
    pub fn new() -> (sender: RequestSender)
        ensures
            !sender.safe_mode(),
    {
        RequestSender { safe: false }
    }

    /// Switches every later request to the safe endpoints. Switching twice
    /// is the same as switching once.
    pub fn update_to_safe(&mut self)
        ensures
            final(self).safe_mode(),
    {
        self.safe = true;
    }

    /// Tells whether requests go to the safe endpoints.
    pub fn is_safe(&self) -> (safe: bool)
        ensures
            safe == self.safe_mode(),
    {
        self.safe
    }
}

} // verus!
