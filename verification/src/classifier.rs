//! The output classifier: what one line of the agent's structured output
//! shows to the user, if anything.

use crate::json::{array_model, json_parse, model_of, parse_document, Json, JsonValue};
use crate::text::{blank, is_blank, join_lines, join_with_newline, same_text, text_of, views};
use vstd::prelude::*;
use vstd::string::StringExecFns;

verus! {

/// The line that sums up one result of a tool: the result text behind a prefix.
pub open spec fn tool_result_line(text: Seq<char>) -> Seq<char> {
    "Tool result: "@ + text
}

/// What the member `text` of a tool's result contributes: its summary,
/// unless the member is missing or no string.
pub open spec fn result_entry(item: Json) -> Seq<Seq<char>> {
    match item.text_member("text"@) {
        Some(t) => seq![tool_result_line(t)],
        None => Seq::empty(),
    }
}

/// The summaries of a sequence of results, in order.
pub open spec fn result_entries(items: Seq<Json>) -> Seq<Seq<char>>
    decreases items.len(),
{
    if items.len() == 0 {
        Seq::empty()
    } else {
        result_entries(items.drop_last()) + result_entry(items.last())
    }
}

/// The summaries of the content of a tool-result item: of each element where
/// the content is an array, else of the content itself.
pub open spec fn result_texts(content: Json) -> Seq<Seq<char>> {
    match content {
        Json::Array(items) => result_entries(items),
        _ => result_entry(content),
    }
}

/// What one content item of an assistant message contributes: its text as
/// it is where it is a text item, the summaries of its results where it is a
/// tool-result item, and nothing otherwise (a tool invocation is passed over).
pub open spec fn item_texts(item: Json) -> Seq<Seq<char>> {
    match item.text_member("type"@) {
        Some(kind) => if kind == "text"@ {
            match item.text_member("text"@) {
                Some(t) => seq![t],
                None => Seq::empty(),
            }
        } else if kind == "tool_result"@ {
            match item.member("content"@) {
                Some(content) => result_texts(content),
                None => Seq::empty(),
            }
        } else {
            Seq::empty()
        },
        None => Seq::empty(),
    }
}

/// Everything that the content items contribute, in the order of the items.
pub open spec fn collected(items: Seq<Json>) -> Seq<Seq<char>>
    decreases items.len(),
{
    if items.len() == 0 {
        Seq::empty()
    } else {
        collected(items.drop_last()) + item_texts(items.last())
    }
}

/// The text of an assistant message: what its content items contribute,
/// joined by line feeds; or its content itself where that is a string that is
/// not blank.
pub open spec fn assistant_text(message: Json) -> Option<Seq<char>> {
    match message.member("content"@) {
        Some(Json::Array(items)) => if collected(items).len() > 0 {
            Some(join_lines(collected(items)))
        } else {
            None
        },
        Some(Json::String(s)) => if blank(s) {
            None
        } else {
            Some(s)
        },
        _ => None,
    }
}

/// What a structured message shows: the text of an assistant message, and
/// nothing for any other kind of message.
pub open spec fn classify_message(message: Json) -> Option<Seq<char>> {
    match message.text_member("type"@) {
        Some(kind) => if kind == "assistant"@ {
            match message.member("message"@) {
                Some(inner) => assistant_text(inner),
                None => None,
            }
        } else {
            None
        },
        None => None,
    }
}

/// What a line of output shows when reading it as JSON gave `parsed`: what
/// its message shows where the line is JSON, and else the line itself unless
/// it is blank.
pub open spec fn classify_with(line: Seq<char>, parsed: Option<Json>) -> Option<Seq<char>> {
    match parsed {
        Some(message) => classify_message(message),
        None => if blank(line) {
            None
        } else {
            Some(line)
        },
    }
}

/// What a line of output shows.
pub open spec fn classify(line: Seq<char>) -> Option<Seq<char>> {
    classify_with(line, json_parse(line))
}

/// Whether a structured message is the terminal message of the agent.
pub open spec fn is_result_message(message: Json) -> bool {
    message.text_member("type"@) == Some("result"@)
}

/// Whether a line that was read as `parsed` is the terminal message of the agent.
pub open spec fn is_terminal_with(parsed: Option<Json>) -> bool {
    match parsed {
        Some(message) => is_result_message(message),
        None => false,
    }
}

/// Whether a line of output is the terminal message of the agent.
pub open spec fn is_terminal(line: Seq<char>) -> bool {
    is_terminal_with(json_parse(line))
}

/// A line that is no JSON and not blank is shown as it is.
pub proof fn lemma_unparsed_line_is_verbatim(line: Seq<char>)
    requires
        json_parse(line) is None,
        !blank(line),
    ensures
        classify(line) == Some(line),
        !is_terminal(line),
{
}

/// A blank line that is no JSON shows nothing.
pub proof fn lemma_blank_line_shows_nothing(line: Seq<char>)
    requires
        json_parse(line) is None,
        blank(line),
    ensures
        classify(line) is None,
{
}

/// Adding one more item adds what it contributes.
proof fn lemma_collected_step(items: Seq<Json>, i: int)
    requires
        0 <= i < items.len(),
    ensures
        collected(items.take(i + 1)) == collected(items.take(i)) + item_texts(items[i]),
{
    assert(items.take(i + 1).drop_last() =~= items.take(i));
}

/// Adding one more result adds its summary.
proof fn lemma_result_entries_step(items: Seq<Json>, i: int)
    requires
        0 <= i < items.len(),
    ensures
        result_entries(items.take(i + 1)) == result_entries(items.take(i)) + result_entry(
            items[i],
        ),
{
    assert(items.take(i + 1).drop_last() =~= items.take(i));
}

/// Appends to `out` the summary of one result of a tool.
fn push_result_entry(item: &JsonValue, out: &mut Vec<String>)
    ensures
        views(final(out)@) == views(old(out)@) + result_entry(item@),
{
    match item.get_str("text") {
        Some(t) => {
            let mut line = String::from_str("Tool result: ");
            line.append(t);
            out.push(line);
            assert(views(out@) =~= views(old(out)@) + seq![tool_result_line(t@)]);
        },
        None => {
            assert(views(out@) =~= views(old(out)@) + Seq::<Seq<char>>::empty());
        },
    }
}

/// Appends to `out` the summaries of the content of a tool-result item.
fn push_result_texts(content: &JsonValue, out: &mut Vec<String>)
    ensures
        views(final(out)@) == views(old(out)@) + result_texts(content@),
{
    match content.as_array() {
        Some(results) => {
            let ghost models = array_model(results@);
            let mut i: usize = 0;
            assert(views(out@) =~= views(old(out)@) + result_entries(models.take(0)));
            while i < results.len()
                invariant
                    0 <= i <= results.len(),
                    models == array_model(results@),
                    views(out@) == views(old(out)@) + result_entries(models.take(i as int)),
                decreases results.len() - i,
            {
                let ghost before = views(out@);
                proof {
                    lemma_result_entries_step(models, i as int);
                }
                push_result_entry(&results[i], out);
                assert(views(out@) =~= views(old(out)@) + result_entries(
                    models.take(i + 1),
                ));
                i = i + 1;
            }
            assert(models.take(results.len() as int) =~= models);
        },
        None => {
            push_result_entry(content, out);
        },
    }
}

/// Appends to `out` what one content item of an assistant message contributes.
fn push_item_texts(item: &JsonValue, out: &mut Vec<String>)
    ensures
        views(final(out)@) == views(old(out)@) + item_texts(item@),
{
    let ghost nothing = Seq::<Seq<char>>::empty();
    match item.get_str("type") {
        Some(kind) => {
            if same_text(kind, "text") {
                match item.get_str("text") {
                    Some(t) => {
                        out.push(String::from_str(t));
                        assert(views(out@) =~= views(old(out)@) + seq![t@]);
                    },
                    None => {
                        assert(views(out@) =~= views(old(out)@) + nothing);
                    },
                }
            } else if same_text(kind, "tool_result") {
                match item.get("content") {
                    Some(content) => {
                        push_result_texts(content, out);
                    },
                    None => {
                        assert(views(out@) =~= views(old(out)@) + nothing);
                    },
                }
            } else {
                assert(views(out@) =~= views(old(out)@) + nothing);
            }
        },
        None => {
            assert(views(out@) =~= views(old(out)@) + nothing);
        },
    }
}

/// The text of an assistant message.
fn assistant_message_text(message: &JsonValue) -> (r: Option<String>)
    ensures
        text_of(r) == assistant_text(message@),
{
    match message.get("content") {
        Some(content) => {
            match content.as_array() {
                Some(items) => {
                    let ghost models = array_model(items@);
                    let mut parts: Vec<String> = Vec::new();
                    let mut i: usize = 0;
                    assert(views(parts@) =~= collected(models.take(0)));
                    while i < items.len()
                        invariant
                            0 <= i <= items.len(),
                            models == array_model(items@),
                            views(parts@) == collected(models.take(i as int)),
                        decreases items.len() - i,
                    {
                        proof {
                            lemma_collected_step(models, i as int);
                        }
                        push_item_texts(&items[i], &mut parts);
                        i = i + 1;
                    }
                    assert(models.take(items.len() as int) =~= models);
                    if parts.len() > 0 {
                        Some(join_with_newline(&parts))
                    } else {
                        None
                    }
                },
                None => {
                    match content.as_str() {
                        Some(s) => {
                            if is_blank(s) {
                                None
                            } else {
                                Some(String::from_str(s))
                            }
                        },
                        None => None,
                    }
                },
            }
        },
        None => None,
    }
}

/// Classifies a structured message that has been read already: gives the
/// text of an assistant message, and nothing for any other message.
pub fn classify_value(message: &JsonValue) -> (r: Option<String>)
    ensures
        text_of(r) == classify_message(message@),
{
    match message.get_str("type") {
        Some(kind) => {
            if same_text(kind, "assistant") {
                match message.get("message") {
                    Some(inner) => assistant_message_text(inner),
                    None => None,
                }
            } else {
                None
            }
        },
        None => None,
    }
}

/// Tells whether a structured message that has been read already is the
/// terminal message of the agent.
pub fn is_result_value(message: &JsonValue) -> (r: bool)
    ensures
        r == is_result_message(message@),
{
    match message.get_str("type") {
        Some(kind) => same_text(kind, "result"),
        None => false,
    }
}

/// Classifies a line that was read as `parsed`: the line itself, unless it is
/// blank, where it is no JSON, and else what its message shows.
pub fn classify_parsed(line: &str, parsed: &Option<JsonValue>) -> (r: Option<String>)
    ensures
        text_of(r) == classify_with(line@, model_of(*parsed)),
{
    match parsed {
        Some(message) => classify_value(message),
        None => {
            if is_blank(line) {
                None
            } else {
                Some(String::from_str(line))
            }
        },
    }
}

/// Tells whether a line that was read as `parsed` is the terminal message.
pub fn is_terminal_parsed(parsed: &Option<JsonValue>) -> (r: bool)
    ensures
        r == is_terminal_with(model_of(*parsed)),
{
    match parsed {
        Some(message) => is_result_value(message),
        None => false,
    }
}

/// Classifies one line of the agent's output. Every line has an answer, and
/// the answer depends on the line alone; a line that is no JSON and not
/// blank comes back as it is.
pub fn parse_claude_json_line(line: &str) -> (r: Option<String>)
    ensures
        text_of(r) == classify(line@),
        json_parse(line@) is None && !blank(line@) ==> text_of(r) == Some(line@),
{
    let parsed = parse_document(line);
    classify_parsed(line, &parsed)
}

} // verus!
