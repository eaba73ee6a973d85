//! What is exported: every message, with its sender and its recipient in their places.

use crate::bulk::export;
use crate::bulk::target::ExportFormat;
use crate::clock;
use crate::clock::Timestamp;
use crate::db::Message;
use crate::json;
use crate::search;
use crate::strings;
use vstd::prelude::*;

verus! {

proof fn flat_push(pieces: Seq<Seq<char>>, piece: Seq<char>)
    ensures
        pieces.push(piece).flatten() == pieces.flatten() + piece,
{
    let longer = pieces.push(piece);
    longer.lemma_flatten_and_flatten_alt_are_equivalent();
    pieces.lemma_flatten_and_flatten_alt_are_equivalent();
    assert(longer.drop_last() =~= pieces);
}

/// Escaping goes character by character: a bar gets a backslash, the two ends of lines become spaces,
/// and every other character stays.
pub proof fn escaping_goes_one_by_one(text: Seq<char>, last: char)
    ensures
        export::escaped(Seq::empty()) == Seq::<char>::empty(),
        export::escaped(text.push(last)) == export::escaped(text) + if last == '|' {
            seq!['\\', '|']
        } else if last == '\n' || last == '\r' {
            seq![' ']
        } else {
            seq![last]
        },
{
    reveal_strlit("\\|");
    reveal_strlit(" ");
    let longer = text.push(last);
    assert(longer.drop_last() =~= text);
    let bars = search::replaced(text, '|', "\\|"@);
    let feeds = search::replaced(bars, '\n', " "@);
    let more_bars = search::replaced(longer, '|', "\\|"@);
    if last == '|' {
        assert(more_bars == bars + "\\|"@);
        assert(more_bars =~= bars.push('\\').push('|'));
        assert(more_bars.drop_last() =~= bars.push('\\'));
        assert(bars.push('\\').drop_last() =~= bars);
        let more_feeds = search::replaced(more_bars, '\n', " "@);
        assert(search::replaced(bars.push('\\'), '\n', " "@) == feeds.push('\\'));
        assert(more_feeds == feeds.push('\\').push('|'));
        assert(more_feeds.drop_last() =~= feeds.push('\\'));
        assert(feeds.push('\\').drop_last() =~= feeds);
        assert(search::replaced(feeds.push('\\'), '\r', " "@) == export::escaped(text).push('\\'));
        assert(export::escaped(longer) == export::escaped(text).push('\\').push('|'));
        assert(export::escaped(longer) =~= export::escaped(text) + seq!['\\', '|']);
    } else {
        assert(more_bars == bars.push(last));
        assert(more_bars.drop_last() =~= bars);
        let more_feeds = search::replaced(more_bars, '\n', " "@);
        if last == '\n' {
            assert(more_feeds =~= feeds.push(' '));
            assert(more_feeds.drop_last() =~= feeds);
            assert(export::escaped(longer) =~= export::escaped(text) + seq![' ']);
        } else {
            assert(more_feeds == feeds.push(last));
            assert(more_feeds.drop_last() =~= feeds);
            if last == '\r' {
                assert(export::escaped(longer) =~= export::escaped(text) + seq![' ']);
            } else {
                assert(export::escaped(longer) =~= export::escaped(text) + seq![last]);
            }
        }
    }
}

/// A Markdown export tells when it was made and how many messages it holds, and then gives each
/// message once, in the order of the list: number and team, sender and, behind the arrow, recipient,
/// when it was written and read, and its body as it stands.
pub proof fn markdown_holds_every_message(messages: Seq<Message>, generated: Seq<char>)
    ensures
        export::markdown_text(messages, generated) == "# agmsg bulk export\n\n- Generated: "@
            + generated + "\n- Messages: "@ + strings::decimal(messages.len()) + "\n\n"@ + Seq::new(
            messages.len(),
            |i: int|
                "## #"@ + strings::signed_decimal(messages[i].id as int) + " `"@ + export::escaped(
                    messages[i].team@,
                ) + "` "@ + export::escaped(messages[i].from_agent@) + " -> "@ + export::escaped(
                    messages[i].to_agent@,
                ) + "\n\n- Created: "@ + messages[i].created_at@ + "\n- Read: "@ + (
                match messages[i].read_at {
                    Some(read_at) => read_at@,
                    None => "unread"@,
                }) + "\n\n"@ + messages[i].body@ + "\n\n"@,
        ).flatten(),
{
    sections_one_by_one(messages);
}

proof fn sections_one_by_one(messages: Seq<Message>)
    ensures
        export::message_sections(messages) == Seq::new(
            messages.len(),
            |i: int|
                "## #"@ + strings::signed_decimal(messages[i].id as int) + " `"@ + export::escaped(
                    messages[i].team@,
                ) + "` "@ + export::escaped(messages[i].from_agent@) + " -> "@ + export::escaped(
                    messages[i].to_agent@,
                ) + "\n\n- Created: "@ + messages[i].created_at@ + "\n- Read: "@ + (
                match messages[i].read_at {
                    Some(read_at) => read_at@,
                    None => "unread"@,
                }) + "\n\n"@ + messages[i].body@ + "\n\n"@,
        ).flatten(),
    decreases messages.len(),
{
    let pieces = Seq::new(
        messages.len(),
        |i: int|
            "## #"@ + strings::signed_decimal(messages[i].id as int) + " `"@ + export::escaped(
                messages[i].team@,
            ) + "` "@ + export::escaped(messages[i].from_agent@) + " -> "@ + export::escaped(
                messages[i].to_agent@,
            ) + "\n\n- Created: "@ + messages[i].created_at@ + "\n- Read: "@ + (
            match messages[i].read_at {
                Some(read_at) => read_at@,
                None => "unread"@,
            }) + "\n\n"@ + messages[i].body@ + "\n\n"@,
    );
    if messages.len() > 0 {
        let shorter = messages.drop_last();
        let fewer = Seq::new(
            shorter.len(),
            |i: int|
                "## #"@ + strings::signed_decimal(shorter[i].id as int) + " `"@ + export::escaped(
                    shorter[i].team@,
                ) + "` "@ + export::escaped(shorter[i].from_agent@) + " -> "@ + export::escaped(
                    shorter[i].to_agent@,
                ) + "\n\n- Created: "@ + shorter[i].created_at@ + "\n- Read: "@ + (
                match shorter[i].read_at {
                    Some(read_at) => read_at@,
                    None => "unread"@,
                }) + "\n\n"@ + shorter[i].body@ + "\n\n"@,
        );
        sections_one_by_one(shorter);
        assert(messages[messages.len() - 1] == messages.last());
        assert(pieces =~= fewer.push(pieces.last()));
        flat_push(fewer, pieces.last());
    } else {
        assert(pieces =~= Seq::empty());
        pieces.lemma_flatten_and_flatten_alt_are_equivalent();
    }
}

/// A JSON export gives the same: each message once, in the order of the list, with every field under
/// its own name, and null for a message that is unread.
pub proof fn json_holds_every_message(messages: Seq<Message>, generated: Seq<char>, last: Message)
    ensures
        export::export_json(messages, generated) == "{\"generated_at\":"@ + json::json_string(
            generated,
        ) + ",\"message_count\":"@ + strings::decimal(messages.len()) + ",\"messages\":["@
            + export::messages_json(messages) + "]}"@,
        export::messages_json(Seq::empty()) == Seq::<char>::empty(),
        export::messages_json(messages.push(last)) == export::messages_json(messages) + (
        if messages.len() == 0 {
            ""@
        } else {
            ","@
        }) + "{\"id\":"@ + strings::signed_decimal(last.id as int) + ",\"team\":"@
            + json::json_string(last.team@) + ",\"from\":"@ + json::json_string(last.from_agent@)
            + ",\"to\":"@ + json::json_string(last.to_agent@) + ",\"body\":"@ + json::json_string(
            last.body@,
        ) + ",\"created_at\":"@ + json::json_string(last.created_at@) + ",\"read_at\":"@ + (
        match last.read_at {
            Some(read_at) => json::json_string(read_at@),
            None => "null"@,
        }) + "}"@,
{
    reveal_strlit("");
    let longer = messages.push(last);
    assert(longer.drop_last() =~= messages);
    let tail = "{\"id\":"@ + strings::signed_decimal(last.id as int) + ",\"team\":"@
        + json::json_string(last.team@) + ",\"from\":"@ + json::json_string(last.from_agent@)
        + ",\"to\":"@ + json::json_string(last.to_agent@) + ",\"body\":"@ + json::json_string(
        last.body@,
    ) + ",\"created_at\":"@ + json::json_string(last.created_at@) + ",\"read_at\":"@ + (
    match last.read_at {
        Some(read_at) => json::json_string(read_at@),
        None => "null"@,
    }) + "}"@;
    assert(export::message_json(last) == tail);
    if messages.len() == 0 {
        assert(longer[0] == last);
    }
    let whole = export::messages_json(messages) + (if messages.len() == 0 {
        ""@
    } else {
        ","@
    }) + "{\"id\":"@ + strings::signed_decimal(last.id as int) + ",\"team\":"@ + json::json_string(
        last.team@,
    ) + ",\"from\":"@ + json::json_string(last.from_agent@) + ",\"to\":"@ + json::json_string(
        last.to_agent@,
    ) + ",\"body\":"@ + json::json_string(last.body@) + ",\"created_at\":"@ + json::json_string(
        last.created_at@,
    ) + ",\"read_at\":"@ + (match last.read_at {
        Some(read_at) => json::json_string(read_at@),
        None => "null"@,
    }) + "}"@;
    assert(export::messages_json(longer) =~= whole);
}

/// Each format writes its own document, under its own extension.
pub proof fn formats_write_their_documents(messages: Seq<Message>, now: Timestamp)
    ensures
        export::export_content(messages, ExportFormat::Markdown, now) == Some(
            export::markdown_text(messages, clock::rfc3339_text(now.secs, now.nanos)),
        ),
        export::export_content(messages, ExportFormat::Json, now) == json::indented_json(
            export::export_json(messages, clock::rfc3339_text(now.secs, now.nanos)),
        ),
        ExportFormat::Markdown.extension_text() == "md"@,
        ExportFormat::Json.extension_text() == "json"@,
{
}

} // verus!
