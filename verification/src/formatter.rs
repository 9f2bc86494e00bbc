//! Formatters turn a record into the text that a sink delivers.

pub mod json;
pub mod plain_text;

pub use self::json::JsonFormatter;
pub use self::plain_text::PlainTextFormatter;

use crate::extras::{as_map, ascending, lemma_determined_by_map};
use crate::record::{LogRecord, RecordView};
use vstd::prelude::*;

verus! {

/// A rendering of log records as text.
///
/// Formatting reads nothing but the record: the text is a function of the
/// formatter and of what the record holds, and there is a text for every
/// record.
pub trait Formatter {
    /// The text this formatter gives to a record.
    spec fn rendering(&self, record: RecordView) -> Seq<char>;

    /// Renders `record`.
    fn format(&self, record: &LogRecord) -> (text: String)
        ensures
            text@ == self.rendering(record@),
    ;
}

/// The text of a record is determined by its level, message, timestamp and
/// the mapping that its extras stand for: two records that agree on these
/// get the same text from the same formatter.
pub proof fn lemma_rendering_determined_by_mapping<F: Formatter>(
    formatter: F,
    a: RecordView,
    b: RecordView,
)
    requires
        a.level == b.level,
        a.message == b.message,
        a.timestamp == b.timestamp,
        ascending(a.extras),
        ascending(b.extras),
        as_map(a.extras) == as_map(b.extras),
    ensures
        formatter.rendering(a) == formatter.rendering(b),
{
    lemma_determined_by_map(a.extras, b.extras);
}

} // verus!
