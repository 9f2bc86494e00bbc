//! The human-readable line format:
//! `[<timestamp>] <LEVEL>: <message>[ [<k1>=<v1> <k2>=<v2> ...]]`.

use crate::extras::Extras;
use crate::formatter::Formatter;
use crate::level::Level;
use crate::record::{LogRecord, RecordView};
use crate::text::{join, joined};
use crate::timestamp::rfc3339_text;
use vstd::prelude::*;

verus! {

/// One extra as `key=value`.
pub open spec fn pair_text(pair: (Seq<char>, Seq<char>)) -> Seq<char> {
    pair.0 + "="@ + pair.1
}

/// The bracketed group that follows the message: nothing at all when there
/// are no extras, else a space and the pairs, separated by spaces, inside
/// square brackets.
pub open spec fn extras_suffix(extras: Seq<(Seq<char>, Seq<char>)>) -> Seq<char> {
    if extras.len() == 0 {
        Seq::empty()
    } else {
        " ["@ + joined(extras.map_values(|pair: (Seq<char>, Seq<char>)| pair_text(pair)), " "@)
            + "]"@
    }
}

/// The plain-text line for a record whose timestamp reads `stamp`.
pub open spec fn plain_line(
    stamp: Seq<char>,
    level: Level,
    message: Seq<char>,
    extras: Seq<(Seq<char>, Seq<char>)>,
) -> Seq<char> {
    "["@ + stamp + "] "@ + level.name() + ": "@ + message + extras_suffix(extras)
}

/// The plain-text line of a record.
pub open spec fn plain_text(record: RecordView) -> Seq<char> {
    plain_line(
        rfc3339_text(record.timestamp.secs(), record.timestamp.nanos()),
        record.level,
        record.message,
        record.extras,
    )
}

/// Formats records as one human-readable line each.
#[derive(Clone, Copy, Debug, Default)]
pub struct PlainTextFormatter;

/// Assembles the plain-text line from the timestamp's text and the rest of
/// the record.
pub fn assemble_plain_line(
    stamp: &str,
    level: Level,
    message: &str,
    extras: &Extras,
) -> (text: String)
    ensures
        text@ == plain_line(stamp@, level, message@, extras@),
{
    let mut text = String::from_str("[");
    text.append(stamp);
    text.append("] ");
    text.append(level.as_str());
    text.append(": ");
    text.append(message);
    if !extras.is_empty() {
        let ghost wanted = extras@.map_values(|pair: (Seq<char>, Seq<char>)| pair_text(pair));
        let mut pairs: Vec<String> = Vec::new();
        let mut i: usize = 0;
        while i < extras.len()
            invariant
                i <= extras@.len(),
                pairs.len() == i,
                wanted == extras@.map_values(|pair: (Seq<char>, Seq<char>)| pair_text(pair)),
                forall|j: int| 0 <= j < i ==> (#[trigger] pairs[j])@ == wanted[j],
            decreases extras@.len() - i,
        {
            let mut pair = String::from_str(extras.key(i));
            pair.append("=");
            pair.append(extras.value(i));
            pairs.push(pair);
            i = i + 1;
        }
        assert(pairs.deep_view() =~= wanted);
        let group = join(&pairs, " ");
        text.append(" [");
        text.append(group.as_str());
        text.append("]");
        assert(text@ =~= plain_line(stamp@, level, message@, extras@));
    } else {
        assert(text@ =~= plain_line(stamp@, level, message@, extras@));
    }
    text
}

impl Formatter for PlainTextFormatter {
    open spec fn rendering(&self, record: RecordView) -> Seq<char> {
        plain_text(record)
    }

    fn format(&self, record: &LogRecord) -> (text: String) {
        let stamp = record.timestamp.to_rfc3339();
        assemble_plain_line(stamp.as_str(), record.level, record.message, &record.extras)
    }
}

/// Without extras the line ends with the message: there is no bracket group
/// and no trailing space.
pub proof fn lemma_plain_line_without_extras(stamp: Seq<char>, level: Level, message: Seq<char>)
    ensures
        plain_line(stamp, level, message, Seq::empty()) == "["@ + stamp + "] "@ + level.name()
            + ": "@ + message,
{
    assert(plain_line(stamp, level, message, Seq::empty()) =~= "["@ + stamp + "] "@ + level.name()
        + ": "@ + message);
}

/// With extras the line ends with one bracket group that holds the pairs in
/// order; with a single extra that is ` [key=value]`.
pub proof fn lemma_plain_line_with_one_extra(
    stamp: Seq<char>,
    level: Level,
    message: Seq<char>,
    pair: (Seq<char>, Seq<char>),
)
    ensures
        plain_line(stamp, level, message, seq![pair]) == "["@ + stamp + "] "@ + level.name()
            + ": "@ + message + " ["@ + pair.0 + "="@ + pair.1 + "]"@,
{
    let texts = seq![pair].map_values(|pair: (Seq<char>, Seq<char>)| pair_text(pair));
    assert(texts.len() == 1);
    assert(joined(texts, " "@) == pair_text(pair));
    assert(plain_line(stamp, level, message, seq![pair]) =~= "["@ + stamp + "] "@ + level.name()
        + ": "@ + message + " ["@ + pair.0 + "="@ + pair.1 + "]"@);
}

} // verus!
