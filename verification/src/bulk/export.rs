//! Exporting messages as a document.

use crate::bulk::target::ExportFormat;
use crate::clock;
use crate::clock::{format_time, to_rfc3339, Timestamp};
use crate::db::Message;
use crate::json;
use crate::json::{indent, quote};
use crate::search;
use crate::search::replace_char;
use crate::strings;
use crate::strings::{concat2, concat4, decimal_i64, decimal_usize};
use vstd::prelude::*;

verus! {

/// A text that stands in a heading: bars are escaped and line ends become spaces.
pub open spec fn escaped(text: Seq<char>) -> Seq<char> {
    search::replaced(
        search::replaced(search::replaced(text, '|', "\\|"@), '\n', " "@),
        '\r',
        " "@,
    )
}

/// Escapes bars and turns line ends into spaces.
pub fn escape_markdown(text: &str) -> (result: String)
    ensures
        result@ == escaped(text@),
{
    let bars = replace_char(text, '|', "\\|");
    let feeds = replace_char(bars.as_str(), '\n', " ");
    replace_char(feeds.as_str(), '\r', " ")
}

/// The section of the document that holds one message.
pub open spec fn message_section(message: Message) -> Seq<char> {
    "## #"@ + strings::signed_decimal(message.id as int) + " `"@ + escaped(message.team@) + "` "@
        + escaped(message.from_agent@) + " -> "@ + escaped(message.to_agent@) + "\n\n- Created: "@
        + message.created_at@ + "\n- Read: "@ + (match message.read_at {
        Some(read_at) => read_at@,
        None => "unread"@,
    }) + "\n\n"@ + message.body@ + "\n\n"@
}

/// The sections of some messages, one after the other.
pub open spec fn message_sections(messages: Seq<Message>) -> Seq<char>
    decreases messages.len(),
{
    if messages.len() == 0 {
        Seq::empty()
    } else {
        message_sections(messages.drop_last()) + message_section(messages.last())
    }
}

/// The document, given the time at which it was made.
pub open spec fn markdown_text(messages: Seq<Message>, generated: Seq<char>) -> Seq<char> {
    "# agmsg bulk export\n\n- Generated: "@ + generated + "\n- Messages: "@ + strings::decimal(
        messages.len(),
    ) + "\n\n"@ + message_sections(messages)
}

fn add_section(output: &mut String, message: &Message)
    ensures
        final(output)@ == old(output)@ + message_section(*message),
{
    let mut section = "## #".to_owned();
    section.append(decimal_i64(message.id).as_str());
    section.append(" `");
    section.append(escape_markdown(message.team.as_str()).as_str());
    section.append("` ");
    section.append(escape_markdown(message.from_agent.as_str()).as_str());
    section.append(" -> ");
    section.append(escape_markdown(message.to_agent.as_str()).as_str());
    section.append("\n\n- Created: ");
    section.append(message.created_at.as_str());
    section.append("\n- Read: ");
    match &message.read_at {
        Some(read_at) => section.append(read_at.as_str()),
        None => section.append("unread"),
    }
    section.append("\n\n");
    section.append(message.body.as_str());
    section.append("\n\n");
    output.append(section.as_str());
}

/// The document that holds some messages, given the time at which it was made.
pub fn markdown_document(messages: &Vec<Message>, generated: &str) -> (text: String)
    ensures
        text@ == markdown_text(messages@, generated@),
{
    let mut output = "# agmsg bulk export\n\n- Generated: ".to_owned();
    output.append(generated);
    output.append("\n- Messages: ");
    output.append(decimal_usize(messages.len()).as_str());
    output.append("\n\n");
    let ghost header = output@;
    let mut index: usize = 0;
    proof {
        assert(messages@.take(0) =~= Seq::empty());
        assert(header + message_sections(messages@.take(0)) =~= header);
    }
    while index < messages.len()
        invariant
            index <= messages@.len(),
            output@ == header + message_sections(messages@.take(index as int)),
        decreases messages@.len() - index,
    {
        add_section(&mut output, &messages[index]);
        index += 1;
        proof {
            assert(messages@.take(index as int).drop_last() =~= messages@.take(index - 1));
            assert(output@ =~= header + message_sections(messages@.take(index as int)));
        }
    }
    proof {
        assert(messages@.take(index as int) =~= messages@);
    }
    output
}

/// The document that holds some messages, made at the time `now`.
pub fn build_markdown(messages: &Vec<Message>, now: Timestamp) -> (text: String)
    requires
        now.wf(),
    ensures
        text@ == markdown_text(messages@, clock::rfc3339_text(now.secs, now.nanos)),
{
    let generated = to_rfc3339(now);
    markdown_document(messages, generated.as_str())
}

/// An optional text as JSON.
pub open spec fn json_or_null(text: Option<String>) -> Seq<char> {
    match text {
        Some(text) => json::json_string(text@),
        None => "null"@,
    }
}

/// A message as JSON.
pub open spec fn message_json(message: Message) -> Seq<char> {
    "{\"id\":"@ + strings::signed_decimal(message.id as int) + ",\"team\":"@ + json::json_string(
        message.team@,
    ) + ",\"from\":"@ + json::json_string(message.from_agent@) + ",\"to\":"@ + json::json_string(
        message.to_agent@,
    ) + ",\"body\":"@ + json::json_string(message.body@) + ",\"created_at\":"@
        + json::json_string(message.created_at@) + ",\"read_at\":"@ + json_or_null(
        message.read_at,
    ) + "}"@
}

/// Some messages as JSON, separated by commas.
pub open spec fn messages_json(messages: Seq<Message>) -> Seq<char>
    decreases messages.len(),
{
    if messages.len() == 0 {
        Seq::empty()
    } else if messages.len() == 1 {
        message_json(messages[0])
    } else {
        messages_json(messages.drop_last()) + ","@ + message_json(messages.last())
    }
}

/// The export as JSON, given the time at which it was made.
pub open spec fn export_json(messages: Seq<Message>, generated: Seq<char>) -> Seq<char> {
    "{\"generated_at\":"@ + json::json_string(generated) + ",\"message_count\":"@
        + strings::decimal(messages.len()) + ",\"messages\":["@ + messages_json(messages) + "]}"@
}

fn message_json_text(message: &Message) -> (text: String)
    ensures
        text@ == message_json(*message),
{
    let mut text = concat2("{\"id\":", decimal_i64(message.id).as_str());
    text.append(",\"team\":");
    text.append(quote(message.team.as_str()).as_str());
    text.append(",\"from\":");
    text.append(quote(message.from_agent.as_str()).as_str());
    text.append(",\"to\":");
    text.append(quote(message.to_agent.as_str()).as_str());
    text.append(",\"body\":");
    text.append(quote(message.body.as_str()).as_str());
    text.append(",\"created_at\":");
    text.append(quote(message.created_at.as_str()).as_str());
    text.append(",\"read_at\":");
    let read_at = match &message.read_at {
        Some(read_at) => quote(read_at.as_str()),
        None => "null".to_owned(),
    };
    text.append(read_at.as_str());
    text.append("}");
    text
}

/// The export as JSON on one line.
pub fn json_document(messages: &Vec<Message>, generated: &str) -> (text: String)
    ensures
        text@ == export_json(messages@, generated@),
{
    let mut rows: String = String::new();
    let mut index: usize = 0;
    proof {
        assert(messages@.take(0) =~= Seq::empty());
    }
    while index < messages.len()
        invariant
            index <= messages@.len(),
            rows@ == messages_json(messages@.take(index as int)),
        decreases messages@.len() - index,
    {
        let ghost before = messages@.take(index as int);
        let ghost after = messages@.take(index + 1);
        proof {
            assert(after.drop_last() =~= before);
            assert(after.last() == messages@[index as int]);
            if index == 0 {
                assert(rows@ + message_json(messages@[0]) =~= message_json(messages@[0]));
            }
        }
        if index > 0 {
            rows.append(",");
        }
        rows.append(message_json_text(&messages[index]).as_str());
        index += 1;
    }
    proof {
        assert(messages@.take(index as int) =~= messages@);
    }
    let mut text = concat2("{\"generated_at\":", quote(generated).as_str());
    text.append(",\"message_count\":");
    text.append(decimal_usize(messages.len()).as_str());
    text.append(",\"messages\":[");
    text.append(rows.as_str());
    text.append("]}");
    text
}

/// The export in JSON, indented, made at the time `now`.
pub fn build_json(messages: &Vec<Message>, now: Timestamp) -> (text: Option<String>)
    requires
        now.wf(),
    ensures
        strings::held(text) == json::indented_json(
            export_json(messages@, clock::rfc3339_text(now.secs, now.nanos)),
        ),
{
    let generated = to_rfc3339(now);
    indent(json_document(messages, generated.as_str()).as_str())
}

/// What an export holds: a document or JSON.
pub open spec fn export_content(
    messages: Seq<Message>,
    format: ExportFormat,
    now: Timestamp,
) -> Option<Seq<char>> {
    let generated = clock::rfc3339_text(now.secs, now.nanos);
    match format {
        ExportFormat::Markdown => Some(markdown_text(messages, generated)),
        ExportFormat::Json => json::indented_json(export_json(messages, generated)),
    }
}

/// Makes an export of some messages.
pub fn export_bulk_messages(messages: &Vec<Message>, format: ExportFormat, now: Timestamp) -> (text:
    Option<String>)
    requires
        now.wf(),
    ensures
        strings::held(text) == export_content(messages@, format, now),
{
    match format {
        ExportFormat::Markdown => Some(build_markdown(messages, now)),
        ExportFormat::Json => build_json(messages, now),
    }
}

/// The name of the exported file for a time stamp.
pub fn export_name_for(stamp: &str, format: ExportFormat) -> (name: String)
    ensures
        name@ == "agmsg-bulk-"@ + stamp@ + "."@ + format.extension_text(),
{
    concat4("agmsg-bulk-", stamp, ".", format.extension())
}

/// The name of a file that is exported at the time `now`.
pub fn export_file_name(now: Timestamp, format: ExportFormat) -> (name: String)
    requires
        now.wf(),
    ensures
        name@ == "agmsg-bulk-"@ + clock::pattern_text(now.secs, now.nanos, "%Y%m%d-%H%M%S"@) + "."@
            + format.extension_text(),
{
    let stamp = format_time(now, "%Y%m%d-%H%M%S");
    export_name_for(stamp.as_str(), format)
}

/// Escaping leaves no line end and no carriage return, so a heading stays on its line.
pub proof fn escaped_is_one_line(text: Seq<char>)
    ensures
        !escaped(text).contains('\n'),
        !escaped(text).contains('\r'),
{
    reveal_strlit(" ");
    let bars = search::replaced(text, '|', "\\|"@);
    let feeds = search::replaced(bars, '\n', " "@);
    replaced_removes(bars, '\n', " "@);
    replaced_removes(feeds, '\r', " "@);
    replaced_keeps_out(feeds, '\r', " "@, '\n');
}

proof fn replaced_removes(text: Seq<char>, from: char, to: Seq<char>)
    requires
        !to.contains(from),
    ensures
        !search::replaced(text, from, to).contains(from),
    decreases text.len(),
{
    if text.len() > 0 {
        replaced_removes(text.drop_last(), from, to);
        let before = search::replaced(text.drop_last(), from, to);
        let after = search::replaced(text, from, to);
        if after.contains(from) {
            let i = choose|i: int| 0 <= i < after.len() && after[i] == from;
            if i < before.len() {
                assert(before[i] == from);
                assert(before.contains(from));
            } else if text.last() == from {
                assert(to[i - before.len()] == from);
                assert(to.contains(from));
            }
        }
    }
}

proof fn replaced_keeps_out(text: Seq<char>, from: char, to: Seq<char>, other: char)
    requires
        !to.contains(other),
        !text.contains(other),
    ensures
        !search::replaced(text, from, to).contains(other),
    decreases text.len(),
{
    if text.len() > 0 {
        assert(!text.drop_last().contains(other)) by {
            if text.drop_last().contains(other) {
                let i = choose|i: int| 0 <= i < text.drop_last().len() && text.drop_last()[i]
                    == other;
                assert(text[i] == other);
            }
        }
        replaced_keeps_out(text.drop_last(), from, to, other);
        let before = search::replaced(text.drop_last(), from, to);
        let after = search::replaced(text, from, to);
        if after.contains(other) {
            let i = choose|i: int| 0 <= i < after.len() && after[i] == other;
            if i < before.len() {
                assert(before[i] == other);
                assert(before.contains(other));
            } else if text.last() == from {
                assert(to[i - before.len()] == other);
                assert(to.contains(other));
            } else {
                assert(text[text.len() - 1] == other);
            }
        }
    }
}

} // verus!
