//! The library's error type.
use vstd::prelude::*;

use crate::text::concat2;

verus! {

/// What went wrong, by the part of the system it went wrong in.
#[derive(Debug, Clone, PartialEq, Eq)]
pub enum NornError {
    Config(String),
    Collector { collector: String, message: String },
    Scanner { scanner: String, target: String, message: String },
    Database(String),
    Notification(String),
}

impl NornError {
    /// The sentence that describes the error.
    pub open spec fn text(&self) -> Seq<char> {
        match self {
            NornError::Config(m) => "configuration error: "@ + m@,
            NornError::Collector { collector, message } => "collector "@ + collector@
                + " failed: "@ + message@,
            NornError::Scanner { scanner, target, message } => "scanner "@ + scanner@
                + " failed for "@ + target@ + ": "@ + message@,
            NornError::Database(m) => "database error: "@ + m@,
            NornError::Notification(m) => "notification error: "@ + m@,
        }
    }

    pub fn describe(&self) -> (s: String)
        ensures
            s@ == self.text(),
    {
        match self {
            NornError::Config(m) => concat2("configuration error: ", m.as_str()),
            NornError::Collector { collector, message } => {
                let mut s = concat2("collector ", collector.as_str());
                s.append(" failed: ");
                s.append(message.as_str());
                s
            },
            NornError::Scanner { scanner, target, message } => {
                let mut s = concat2("scanner ", scanner.as_str());
                s.append(" failed for ");
                s.append(target.as_str());
                s.append(": ");
                s.append(message.as_str());
                s
            },
            NornError::Database(m) => concat2("database error: ", m.as_str()),
            NornError::Notification(m) => concat2("notification error: ", m.as_str()),
        }
    }
}

} // verus!
