//! The errors of the library.

use vstd::prelude::*;

verus! {

/// What went wrong.
#[derive(Clone, Copy, Debug, PartialEq, Eq, Structural)]
pub enum ErrorKind {
    /// A duration does not follow the duration grammar.
    DurationParse,
    /// A date or a time zone cannot be read or held.
    DateParse,
    /// A time of day cannot be read.
    TimeParse,
    /// An event record is malformed.
    EventParse,
    /// An event record lacks a required property.
    EventMissingKey,
    /// A calendar cannot be read.
    CalendarParse,
    /// A calendar record holds no event.
    NoEvents,
    /// A calendar record holds more than one event.
    MultipleEvents,
    /// A file holds no record that could be read.
    Io,
}

/// An error: its kind and a message for the log.
#[derive(Debug)]
pub struct Error {
    pub kind: ErrorKind,
    pub message: String,
}

impl Error {
    pub fn new(kind: ErrorKind, message: &str) -> (e: Error)
        ensures
            e.kind == kind,
            e.message@ == message@,
    {
        Error { kind, message: message.to_owned() }
    }

    pub fn kind(&self) -> (k: ErrorKind)
        ensures
            k == self.kind,
    {
        self.kind
    }

    pub fn message(&self) -> (m: &str)
        ensures
            m@ == self.message@,
    {
        self.message.as_str()
    }
}

} // verus!
