//! The address that the shell offers to listen on.

use vstd::prelude::*;
use vstd::string::*;

verus! {

/// A host's name and a port on it.
pub struct Host {
    pub name: String,
    pub port: u16,
}

impl Host {
    /// The host `name` with the port `port`.
    pub fn new(name: &str, port: u16) -> (host: Host)
        ensures
            host.name@ == name@,
            host.port == port,
    {
        Host { name: String::from_str(name), port }
    }
}

} // verus!
