//! The snapshot of one logging event.

use crate::extras::Extras;
use crate::level::Level;
use crate::timestamp::Timestamp;
use vstd::prelude::*;

verus! {

/// One logging event: fixed when it is built and only read afterwards.
///
/// The extras are the record's own copy, so later changes to the logger that
/// built it do not reach it.
#[derive(Debug)]
pub struct LogRecord<'a> {
    /// The severity of the event.
    pub level: Level,
    /// The message text.
    pub message: &'a str,
    /// The instant at which the record was built.
    pub timestamp: Timestamp,
    /// The contextual pairs in force when the record was built.
    pub extras: Extras,
}

/// What a record holds, as mathematical values.
pub struct RecordView {
    pub level: Level,
    pub message: Seq<char>,
    pub timestamp: Timestamp,
    pub extras: Seq<(Seq<char>, Seq<char>)>,
}

impl<'a> View for LogRecord<'a> {
    type V = RecordView;

    open spec fn view(&self) -> RecordView {
        RecordView {
            level: self.level,
            message: self.message@,
            timestamp: self.timestamp,
            extras: self.extras@,
        }
    }
}

impl<'a> LogRecord<'a> {
    /// Builds a record stamped with the clock's current instant.
    ///
    /// Level, message and extras are those given; the timestamp is whatever
    /// the clock reads during the call.
    pub fn new(level: Level, message: &'a str, extras: Extras) -> (r: Self)
        ensures
            r.level == level,
            r.message@ == message@,
            r.extras == extras,
            r.timestamp.in_range(),
    {
        LogRecord { level, message, timestamp: Timestamp::now(), extras }
    }
}

} // verus!
