//! The kinds of log line. Writing the lines, with the time and in colour, is
//! the program's part.

use vstd::prelude::*;

verus! {

/// The kind of a log line.
#[allow(non_camel_case_types)]
#[derive(Clone, Copy, Debug, PartialEq, Eq, Structural)]
pub enum LogType {
    INFO,
    WARN,
    ERROR,
    OK,
    STATUS,
}

impl LogType {
    /// The tag that a line of this kind carries.
    pub open spec fn tag(self) -> Seq<char> {
        match self {
            LogType::INFO => "[LOG]"@,
            LogType::WARN => "[WARN]"@,
            LogType::ERROR => "[ERROR]"@,
            LogType::OK => "[OK]"@,
            LogType::STATUS => "[STATUS]"@,
        }
    }

    /// The tag of this kind of line.
    pub fn label(self) -> (label: &'static str)
        ensures
            label@ == self.tag(),
    {
        match self {
            LogType::INFO => "[LOG]",
            LogType::WARN => "[WARN]",
            LogType::ERROR => "[ERROR]",
            LogType::OK => "[OK]",
            LogType::STATUS => "[STATUS]",
        }
    }
}

} // verus!
