//! The logger: threshold, contextual extras, one formatter and one sink.

use crate::extras::{as_map, has_key, Extras};
use crate::formatter::Formatter;
use crate::level::Level;
use crate::record::{LogRecord, RecordView};
use crate::sink::Sink;
use crate::timestamp::Timestamp;
use vstd::prelude::*;

verus! {

/// The exit status with which a process ends after a fatal message.
pub const FATAL_EXIT_STATUS: i32 = 1;

/// Filters messages by severity, stamps and enriches those that pass,
/// formats them and hands the text to the sink.
pub struct Logger<S: Sink, F: Formatter> {
    min_level: Level,
    sink: S,
    formatter: F,
    extras: Extras,
    delivered: Ghost<Seq<Seq<char>>>,
}

impl<S: Sink, F: Formatter> Logger<S, F> {
    /// The threshold below which messages are suppressed.
    pub closed spec fn spec_min_level(&self) -> Level {
        self.min_level
    }

    /// The sink that receives the formatted messages.
    pub closed spec fn spec_sink(&self) -> &S {
        &self.sink
    }

    /// The formatter that renders the records.
    pub closed spec fn spec_formatter(&self) -> &F {
        &self.formatter
    }

    /// The contextual pairs copied into every record.
    pub closed spec fn spec_extras(&self) -> &Extras {
        &self.extras
    }

    /// The messages that this logger has handed to its sink, oldest first.
    pub closed spec fn delivered(&self) -> Seq<Seq<char>> {
        self.delivered@
    }

    /// The record that a message of severity `level` becomes at instant
    /// `timestamp`: it carries the extras that the logger holds then.
    pub open spec fn record_of(
        &self,
        level: Level,
        message: Seq<char>,
        timestamp: Timestamp,
    ) -> RecordView {
        RecordView { level, message, timestamp, extras: self.extras()@ }
    }

    /// The text handed to the sink for such a record.
    pub open spec fn line_of(
        &self,
        level: Level,
        message: Seq<char>,
        timestamp: Timestamp,
    ) -> Seq<char> {
        self.formatter().rendering(self.record_of(level, message, timestamp))
    }

    /// The delivery history after a message of severity `level` has been
    /// logged at instant `timestamp`: one line longer if the threshold
    /// admits the level, unchanged if it does not.
    pub open spec fn delivered_after(
        &self,
        level: Level,
        message: Seq<char>,
        timestamp: Timestamp,
    ) -> Seq<Seq<char>> {
        if self.min_level().admits(level) {
            self.delivered().push(self.line_of(level, message, timestamp))
        } else {
            self.delivered()
        }
    }

    /// Threshold, sink, formatter and extras of `self` are those of `other`.
    pub open spec fn configured_as(&self, other: &Self) -> bool {
        &&& self.min_level() == other.min_level()
        &&& self.sink() == other.sink()
        &&& self.formatter() == other.formatter()
        &&& self.extras() == other.extras()
    }

    /// A logger with the given threshold, sink and formatter and no extras.
    pub fn new(min_level: Level, sink: S, formatter: F) -> (r: Self)
        ensures
            r.min_level() == min_level,
            *r.sink() == sink,
            *r.formatter() == formatter,
            r.extras()@ == Seq::<(Seq<char>, Seq<char>)>::empty(),
            r.delivered() == Seq::<Seq<char>>::empty(),
    {
        Logger { min_level, sink, formatter, extras: Extras::new(), delivered: Ghost(Seq::empty()) }
    }

    /// The threshold below which messages are suppressed.
    #[verifier::when_used_as_spec(spec_min_level)]
    pub fn min_level(&self) -> (level: Level)
        ensures
            level == self.spec_min_level(),
    {
        self.min_level
    }

    /// The sink that receives the formatted messages.
    #[verifier::when_used_as_spec(spec_sink)]
    pub fn sink(&self) -> (sink: &S)
        ensures
            sink == self.spec_sink(),
    {
        &self.sink
    }

    /// The formatter that renders the records.
    #[verifier::when_used_as_spec(spec_formatter)]
    pub fn formatter(&self) -> (formatter: &F)
        ensures
            formatter == self.spec_formatter(),
    {
        &self.formatter
    }

    /// The contextual pairs copied into every record.
    #[verifier::when_used_as_spec(spec_extras)]
    pub fn extras(&self) -> (extras: &Extras)
        ensures
            extras == self.spec_extras(),
    {
        &self.extras
    }

    /// Sets the extra `key` to `value` for all messages that follow,
    /// replacing the value of a key already present.
    pub fn add_extra(&mut self, key: &str, value: &str)
        ensures
            final(self).extras().map() == old(self).extras().map().insert(key@, value@),
            final(self).min_level() == old(self).min_level(),
            final(self).formatter() == old(self).formatter(),
            final(self).sink() == old(self).sink(),
            final(self).delivered() == old(self).delivered(),
    {
        self.extras.insert(String::from_str(key), String::from_str(value));
    }

    /// Removes the extra `key` for all messages that follow; a key that is
    /// absent leaves the logger as it was.
    pub fn remove_extra(&mut self, key: &str)
        ensures
            final(self).extras().map() == old(self).extras().map().remove(key@),
            !old(self).extras().map().dom().contains(key@) ==> final(self).extras()@ == old(
                self,
            ).extras()@,
            final(self).min_level() == old(self).min_level(),
            final(self).formatter() == old(self).formatter(),
            final(self).sink() == old(self).sink(),
            final(self).delivered() == old(self).delivered(),
    {
        self.extras.remove(key);
    }

    /// Formats `record` and hands the text to the sink.
    fn deliver(&mut self, record: &LogRecord)
        ensures
            final(self).configured_as(old(self)),
            final(self).delivered() == old(self).delivered().push(
                old(self).formatter().rendering(record@),
            ),
    {
        let text = self.formatter.format(record);
        self.sink.write(text.as_str());
        self.delivered = Ghost(self.delivered@.push(text@));
    }

    /// Logs `message` with severity `level` as of the instant `timestamp`.
    ///
    /// Below the threshold the logger is left exactly as it was. Otherwise
    /// the sink receives one message: the formatter's text for the record
    /// made of `level`, `message`, `timestamp` and a copy of the extras.
    pub fn emit_at(&mut self, level: Level, message: &str, timestamp: Timestamp)
        ensures
            final(self).configured_as(old(self)),
            !old(self).min_level().admits(level) ==> *final(self) == *old(self),
            final(self).delivered() == old(self).delivered_after(level, message@, timestamp),
    {
        if self.min_level.lets_through(level) {
            let record = LogRecord { level, message, timestamp, extras: self.extras.clone() };
            self.deliver(&record);
        }
    }

    /// Logs `message` with severity `level`.
    ///
    /// Below the threshold the logger is left exactly as it was and the
    /// clock is not read. Otherwise the sink receives one message: the
    /// formatter's text for the record made of `level`, `message`, the
    /// instant the clock gives and a copy of the extras.
    pub fn emit(&mut self, level: Level, message: &str)
        ensures
            final(self).configured_as(old(self)),
            !old(self).min_level().admits(level) ==> *final(self) == *old(self),
            old(self).min_level().admits(level) ==> exists|timestamp: Timestamp|
                timestamp.in_range() && final(self).delivered() == #[trigger] old(
                    self,
                ).delivered_after(level, message@, timestamp),
    {
        if self.min_level.lets_through(level) {
            let record = LogRecord::new(level, message, self.extras.clone());
            self.deliver(&record);
            assert(record@ == old(self).record_of(level, message@, record.timestamp));
            assert(self.delivered() == old(self).delivered_after(
                level,
                message@,
                record.timestamp,
            ));
        }
    }

    /// Logs a message with severity `Debug`.
    pub fn debug(&mut self, message: &str)
        ensures
            final(self).configured_as(old(self)),
            !old(self).min_level().admits(Level::Debug) ==> *final(self) == *old(self),
            old(self).min_level().admits(Level::Debug) ==> exists|timestamp: Timestamp|
                timestamp.in_range() && final(self).delivered() == #[trigger] old(
                    self,
                ).delivered_after(Level::Debug, message@, timestamp),
    {
        self.emit(Level::Debug, message);
    }

    /// Logs a message with severity `Info`.
    pub fn info(&mut self, message: &str)
        ensures
            final(self).configured_as(old(self)),
            !old(self).min_level().admits(Level::Info) ==> *final(self) == *old(self),
            old(self).min_level().admits(Level::Info) ==> exists|timestamp: Timestamp|
                timestamp.in_range() && final(self).delivered() == #[trigger] old(
                    self,
                ).delivered_after(Level::Info, message@, timestamp),
    {
        self.emit(Level::Info, message);
    }

    /// Logs a message with severity `Warn`.
    pub fn warn(&mut self, message: &str)
        ensures
            final(self).configured_as(old(self)),
            !old(self).min_level().admits(Level::Warn) ==> *final(self) == *old(self),
            old(self).min_level().admits(Level::Warn) ==> exists|timestamp: Timestamp|
                timestamp.in_range() && final(self).delivered() == #[trigger] old(
                    self,
                ).delivered_after(Level::Warn, message@, timestamp),
    {
        self.emit(Level::Warn, message);
    }

    /// Logs a message with severity `Error`.
    pub fn error(&mut self, message: &str)
        ensures
            final(self).configured_as(old(self)),
            !old(self).min_level().admits(Level::Error) ==> *final(self) == *old(self),
            old(self).min_level().admits(Level::Error) ==> exists|timestamp: Timestamp|
                timestamp.in_range() && final(self).delivered() == #[trigger] old(
                    self,
                ).delivered_after(Level::Error, message@, timestamp),
    {
        self.emit(Level::Error, message);
    }

    /// Logs a message with severity `Fatal` and returns the exit status with
    /// which the caller must end the process at once.
    ///
    /// No threshold suppresses a fatal message: the sink has received it
    /// when the call returns, and the status is not zero.
    pub fn fatal(&mut self, message: &str) -> (status: i32)
        ensures
            status == FATAL_EXIT_STATUS,
            status != 0,
            final(self).configured_as(old(self)),
            exists|timestamp: Timestamp|
                timestamp.in_range() && final(self).delivered() == old(
                    self,
                ).delivered().push(
                    #[trigger] old(self).line_of(Level::Fatal, message@, timestamp),
                ),
    {
        self.emit(Level::Fatal, message);
        FATAL_EXIT_STATUS
    }
}

/// A logger lets nothing through that is below its threshold, and lets the
/// threshold itself through: logging at a lower level leaves the delivery
/// history as it is, logging at the threshold adds exactly one line, the
/// formatter's text for the record.
pub proof fn lemma_threshold_filters<S: Sink, F: Formatter>(
    logger: Logger<S, F>,
    lower: Level,
    message: Seq<char>,
    timestamp: Timestamp,
)
    requires
        lower.rank() < logger.min_level().rank(),
    ensures
        logger.delivered_after(lower, message, timestamp) == logger.delivered(),
        logger.delivered_after(logger.min_level(), message, timestamp)
            == logger.delivered().push(logger.line_of(logger.min_level(), message, timestamp)),
        logger.delivered_after(logger.min_level(), message, timestamp).len()
            == logger.delivered().len() + 1,
{
}

/// No threshold suppresses a fatal message.
pub proof fn lemma_fatal_always_delivered<S: Sink, F: Formatter>(
    logger: Logger<S, F>,
    message: Seq<char>,
    timestamp: Timestamp,
)
    ensures
        logger.delivered_after(Level::Fatal, message, timestamp) == logger.delivered().push(
            logger.line_of(Level::Fatal, message, timestamp),
        ),
{
}

/// A record carries the extras in force when it is built, and only those:
/// a key is in the record exactly when the logger holds it at that moment,
/// and it has the logger's value.
pub proof fn lemma_record_carries_extras_in_force<S: Sink, F: Formatter>(
    logger: Logger<S, F>,
    level: Level,
    message: Seq<char>,
    timestamp: Timestamp,
)
    ensures
        logger.record_of(level, message, timestamp).level == level,
        logger.record_of(level, message, timestamp).message == message,
        logger.record_of(level, message, timestamp).timestamp == timestamp,
        as_map(logger.record_of(level, message, timestamp).extras) == logger.extras().map(),
{
}

/// An extra added before a message appears in that message's record, with
/// the value given; the extras that were there besides it stay.
pub proof fn lemma_added_extra_in_record<S: Sink, F: Formatter>(
    before: Logger<S, F>,
    after: Logger<S, F>,
    key: Seq<char>,
    value: Seq<char>,
    level: Level,
    message: Seq<char>,
    timestamp: Timestamp,
)
    requires
        after.extras().map() == before.extras().map().insert(key, value),
    ensures
        has_key(after.record_of(level, message, timestamp).extras, key),
        as_map(after.record_of(level, message, timestamp).extras)[key] == value,
        forall|other: Seq<char>|
            other != key ==> (has_key(after.record_of(level, message, timestamp).extras, other)
                <==> has_key(before.record_of(level, message, timestamp).extras, other)),
{
    let a = after.record_of(level, message, timestamp).extras;
    let b = before.record_of(level, message, timestamp).extras;
    assert(as_map(a).dom().contains(key));
    assert forall|other: Seq<char>| other != key implies (has_key(a, other) <==> has_key(
        b,
        other,
    )) by {
        assert(as_map(a).dom().contains(other) <==> as_map(b).dom().contains(other));
    }
}

/// An extra removed before a message does not appear in that message's
/// record; the other extras stay.
pub proof fn lemma_removed_extra_not_in_record<S: Sink, F: Formatter>(
    before: Logger<S, F>,
    after: Logger<S, F>,
    key: Seq<char>,
    level: Level,
    message: Seq<char>,
    timestamp: Timestamp,
)
    requires
        after.extras().map() == before.extras().map().remove(key),
    ensures
        !has_key(after.record_of(level, message, timestamp).extras, key),
        forall|other: Seq<char>|
            other != key ==> (has_key(after.record_of(level, message, timestamp).extras, other)
                <==> has_key(before.record_of(level, message, timestamp).extras, other)),
{
    let a = after.record_of(level, message, timestamp).extras;
    let b = before.record_of(level, message, timestamp).extras;
    assert(!as_map(a).dom().contains(key));
    assert forall|other: Seq<char>| other != key implies (has_key(a, other) <==> has_key(
        b,
        other,
    )) by {
        assert(as_map(a).dom().contains(other) <==> as_map(b).dom().contains(other));
    }
}

} // verus!
