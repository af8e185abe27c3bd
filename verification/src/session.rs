//! The shell user's own session: a name and the privacy choices made for it.

use vstd::prelude::*;
use vstd::string::*;

verus! {

/// A privacy choice. `ShowName` and `HideName` are opposites, and so are
/// `AcceptConnections` and `RefuseConnections`.
#[derive(Clone, Copy, Debug, PartialEq, Eq, Structural)]
pub enum Privacy {
    ShowName,
    HideName,
    AcceptConnections,
    RefuseConnections,
}

/// The shell user's session.
pub struct Session {
    pub name: String,
    pub privacy_options: Vec<Privacy>,
}

impl Session {
    /// The session of the user `name` with the choices `privacy_options`.
    pub fn new(name: &str, privacy_options: Vec<Privacy>) -> (session: Session)
        ensures
            session.name@ == name@,
            session.privacy_options == privacy_options,
    {
        Session { name: String::from_str(name), privacy_options }
    }

    /// A session can be used when it has a name and at least two privacy
    /// choices.
    pub open spec fn usable(&self) -> bool {
        self.name@.len() > 0 && self.privacy_options@.len() >= 2
    }

    /// Whether the session can be used.
    pub fn is_usable(&self) -> (b: bool)
        ensures
            b == self.usable(),
    {
        !self.name.as_str().is_empty() && self.privacy_options.len() >= 2
    }
}

} // verus!
