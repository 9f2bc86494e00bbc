//! The JSON line format: one object per record with the keys `extras`,
//! `level`, `message` and `timestamp`, in that order.

use crate::formatter::Formatter;
use crate::record::{LogRecord, RecordView};
use crate::text::{join, joined};
use crate::timestamp::rfc3339_text;
use vstd::prelude::*;

verus! {

/// The JSON string literal for `text`: the text between double quotes, with
/// the characters that JSON does not allow inside a string escaped.
pub uninterp spec fn json_string_text(text: Seq<char>) -> Seq<char>;

/// Renders a string as a JSON string literal by serialising a
/// `serde_json::Value::String` through its `Display` impl.
///
/// Trusted: the literal depends on the text alone.
#[verifier::external_body]
fn quote(text: &str) -> (literal: String)
    ensures
        literal@ == json_string_text(text@),
{
    serde_json::Value::String(text.to_owned()).to_string()
}

/// One member of an object: the key's literal, a colon, the value's text.
pub open spec fn member_text(member: (Seq<char>, Seq<char>)) -> Seq<char> {
    member.0 + ":"@ + member.1
}

/// A JSON object whose members are given as rendered key and value texts:
/// the members in order, separated by commas, inside braces.
pub open spec fn json_object(members: Seq<(Seq<char>, Seq<char>)>) -> Seq<char> {
    "{"@ + joined(members.map_values(|member: (Seq<char>, Seq<char>)| member_text(member)), ","@)
        + "}"@
}

/// The object of one record, from the rendered texts of its four values.
pub open spec fn json_line(
    extras: Seq<char>,
    level: Seq<char>,
    message: Seq<char>,
    timestamp: Seq<char>,
) -> Seq<char> {
    "{\"extras\":"@ + extras + ",\"level\":"@ + level + ",\"message\":"@ + message
        + ",\"timestamp\":"@ + timestamp + "}"@
}

/// Key and value of one extra, each as a JSON string literal.
pub open spec fn quoted_pair(pair: (Seq<char>, Seq<char>)) -> (Seq<char>, Seq<char>) {
    (json_string_text(pair.0), json_string_text(pair.1))
}

/// The JSON line of a record.
pub open spec fn json_text(record: RecordView) -> Seq<char> {
    json_line(
        json_object(record.extras.map_values(|pair: (Seq<char>, Seq<char>)| quoted_pair(pair))),
        json_string_text(record.level.name()),
        json_string_text(record.message),
        json_string_text(rfc3339_text(record.timestamp.secs(), record.timestamp.nanos())),
    )
}

/// The texts of a list of rendered members.
pub open spec fn members_of(members: Seq<(String, String)>) -> Seq<(Seq<char>, Seq<char>)> {
    members.map_values(|member: (String, String)| (member.0@, member.1@))
}

/// Formats records as single-line JSON objects.
#[derive(Clone, Copy, Debug, Default)]
pub struct JsonFormatter;

/// Assembles a JSON object from members whose keys and values are already
/// rendered as JSON.
pub fn assemble_json_object(members: &Vec<(String, String)>) -> (text: String)
    ensures
        text@ == json_object(members_of(members@)),
{
    let ghost wanted = members_of(members@).map_values(
        |member: (Seq<char>, Seq<char>)| member_text(member),
    );
    let mut parts: Vec<String> = Vec::new();
    let mut i: usize = 0;
    while i < members.len()
        invariant
            i <= members.len(),
            parts.len() == i,
            wanted == members_of(members@).map_values(
                |member: (Seq<char>, Seq<char>)| member_text(member),
            ),
            forall|j: int| 0 <= j < i ==> (#[trigger] parts[j])@ == wanted[j],
        decreases members.len() - i,
    {
        let mut part = members[i].0.clone();
        part.append(":");
        part.append(members[i].1.as_str());
        parts.push(part);
        i = i + 1;
    }
    assert(parts.deep_view() =~= wanted);
    let inner = join(&parts, ",");
    let mut text = String::from_str("{");
    text.append(inner.as_str());
    text.append("}");
    text
}

/// Assembles the object of one record from the rendered texts of its four
/// values.
pub fn assemble_json_line(
    extras: &str,
    level: &str,
    message: &str,
    timestamp: &str,
) -> (text: String)
    ensures
        text@ == json_line(extras@, level@, message@, timestamp@),
{
    let mut text = String::from_str("{\"extras\":");
    text.append(extras);
    text.append(",\"level\":");
    text.append(level);
    text.append(",\"message\":");
    text.append(message);
    text.append(",\"timestamp\":");
    text.append(timestamp);
    text.append("}");
    text
}

impl Formatter for JsonFormatter {
    open spec fn rendering(&self, record: RecordView) -> Seq<char> {
        json_text(record)
    }

    fn format(&self, record: &LogRecord) -> (text: String) {
        let ghost wanted = record.extras@.map_values(
            |pair: (Seq<char>, Seq<char>)| quoted_pair(pair),
        );
        let mut members: Vec<(String, String)> = Vec::new();
        let mut i: usize = 0;
        while i < record.extras.len()
            invariant
                i <= record.extras@.len(),
                members.len() == i,
                wanted == record.extras@.map_values(
                    |pair: (Seq<char>, Seq<char>)| quoted_pair(pair),
                ),
                forall|j: int|
                    0 <= j < i ==> ((#[trigger] members[j]).0@, members[j].1@) == wanted[j],
            decreases record.extras@.len() - i,
        {
            let key = quote(record.extras.key(i));
            let value = quote(record.extras.value(i));
            members.push((key, value));
            i = i + 1;
        }
        assert(members_of(members@) =~= wanted);
        let extras = assemble_json_object(&members);
        let level = quote(record.level.as_str());
        let message = quote(record.message);
        let stamp = record.timestamp.to_rfc3339();
        let timestamp = quote(stamp.as_str());
        assemble_json_line(extras.as_str(), level.as_str(), message.as_str(), timestamp.as_str())
    }
}

/// An object without members is `{}`.
pub proof fn lemma_json_object_empty()
    ensures
        json_object(Seq::empty()) == "{}"@,
{
    reveal_strlit("{");
    reveal_strlit("}");
    reveal_strlit("{}");
    let texts = Seq::<(Seq<char>, Seq<char>)>::empty().map_values(
        |member: (Seq<char>, Seq<char>)| member_text(member),
    );
    assert(texts.len() == 0);
    assert(json_object(Seq::empty()) =~= "{}"@);
}

/// An object with one member is the member between braces.
pub proof fn lemma_json_object_single(member: (Seq<char>, Seq<char>))
    ensures
        json_object(seq![member]) == "{"@ + member.0 + ":"@ + member.1 + "}"@,
{
    let texts = seq![member].map_values(|member: (Seq<char>, Seq<char>)| member_text(member));
    assert(texts.len() == 1);
    assert(joined(texts, ","@) == member_text(member));
    assert(json_object(seq![member]) =~= "{"@ + member.0 + ":"@ + member.1 + "}"@);
}

/// The line of a record is one object with the keys `extras`, `level`,
/// `message` and `timestamp`, in that order; the level is the literal of its
/// upper-case name and the timestamp the literal of its RFC 3339 text.
pub proof fn lemma_json_text_shape(record: RecordView)
    ensures
        json_text(record) == "{\"extras\":"@ + json_object(
            record.extras.map_values(|pair: (Seq<char>, Seq<char>)| quoted_pair(pair)),
        ) + ",\"level\":"@ + json_string_text(record.level.name()) + ",\"message\":"@
            + json_string_text(record.message) + ",\"timestamp\":"@ + json_string_text(
            rfc3339_text(record.timestamp.secs(), record.timestamp.nanos()),
        ) + "}"@,
{
}

} // verus!
