//! The text of a server-sent event stream, line by line.
//!
//! A line that begins with `data: ` carries a payload: the end marker
//! `[DONE]`, or a JSON envelope whose first choice adds its content to the
//! answer. Every other line, and every payload that holds no envelope,
//! adds nothing and is no error.

use crate::json::{document_view, json_of_text, parse_json, text_eq, Json, JsonModel};
use crate::response::{completion_of_json, envelope_fragment, CompletionResponse};
use vstd::prelude::*;

verus! {

/// What one line of the stream is: an envelope, or a line to pass over.
#[derive(Debug, PartialEq, Eq)]
pub enum SseLine {
    /// A `data: ` line whose payload holds an envelope.
    Envelope(CompletionResponse),
    /// A comment, a keep-alive, a blank line, the end marker, or a payload
    /// that holds no envelope.
    Ignored,
}

impl View for SseLine {
    /// The contents of the envelope's choices, where the line holds one.
    type V = Option<Seq<Seq<char>>>;

    open spec fn view(&self) -> Option<Seq<Seq<char>>> {
        match self {
            SseLine::Envelope(response) => Some(response@),
            SseLine::Ignored => None,
        }
    }
}

/// The payload of a line: what follows the prefix `data: `, where the line
/// begins with it.
pub open spec fn line_payload(line: Seq<char>) -> Option<Seq<char>> {
    if "data: "@.is_prefix_of(line) {
        Some(line.skip(6))
    } else {
        None
    }
}

/// The envelope that a parsed payload holds.
pub open spec fn document_envelope(parsed: Option<JsonModel>) -> Option<Seq<Seq<char>>> {
    match parsed {
        Some(doc) => completion_of_json(doc),
        None => None,
    }
}

/// The envelope of a payload: none for the end marker `[DONE]`, else the
/// one held by the JSON document that the payload is.
pub open spec fn payload_envelope(payload: Seq<char>) -> Option<Seq<Seq<char>>> {
    if payload == "[DONE]"@ {
        None
    } else {
        document_envelope(json_of_text(payload))
    }
}

/// The envelope of a line.
pub open spec fn line_envelope(line: Seq<char>) -> Option<Seq<Seq<char>>> {
    match line_payload(line) {
        Some(payload) => payload_envelope(payload),
        None => None,
    }
}

/// What a line adds to the answer.
pub open spec fn line_fragment(line: Seq<char>) -> Seq<char> {
    match line_envelope(line) {
        Some(contents) => envelope_fragment(contents),
        None => Seq::empty(),
    }
}

/// The characters after the last line feed of a text: its open line.
pub open spec fn open_text_line(text: Seq<char>) -> Seq<char>
    decreases text.len(),
{
    if text.len() == 0 || text.last() == '\n' {
        Seq::empty()
    } else {
        open_text_line(text.drop_last()).push(text.last())
    }
}

/// A closed line of text without the carriage return of its line ending.
pub open spec fn text_without_return(line: Seq<char>) -> Seq<char> {
    if line.len() > 0 && line.last() == '\r' {
        line.drop_last()
    } else {
        line
    }
}

/// The lines of a text that a line feed has closed, in order, without
/// line endings.
pub open spec fn closed_text_lines(text: Seq<char>) -> Seq<Seq<char>>
    decreases text.len(),
{
    if text.len() == 0 {
        Seq::empty()
    } else if text.last() == '\n' {
        closed_text_lines(text.drop_last()).push(
            text_without_return(open_text_line(text.drop_last())),
        )
    } else {
        closed_text_lines(text.drop_last())
    }
}

/// The last line of a text, given the characters after its last line
/// feed: there is none where nothing follows the line feed.
pub open spec fn last_text_line(rest: Seq<char>) -> Seq<Seq<char>> {
    if rest.len() == 0 {
        Seq::empty()
    } else {
        seq![rest]
    }
}

/// All lines of a text, in order.
pub open spec fn text_lines(text: Seq<char>) -> Seq<Seq<char>> {
    closed_text_lines(text) + last_text_line(open_text_line(text))
}

/// The answer that a text holds: what each of its lines adds, in the
/// order of the lines.
pub open spec fn text_answer(text: Seq<char>) -> Seq<char> {
    text_lines(text).map_values(|line: Seq<char>| line_fragment(line)).flatten()
}

/// The end marker adds nothing: the line `data: [DONE]` holds no envelope.
pub proof fn law_end_marker_is_ignored()
    ensures
        line_envelope("data: [DONE]"@) is None,
        line_fragment("data: [DONE]"@) == Seq::<char>::empty(),
{
    reveal_strlit("data: [DONE]");
    reveal_strlit("data: ");
    reveal_strlit("[DONE]");
    let line = "data: [DONE]"@;
    assert("data: "@ =~= line.subrange(0, 6));
    assert(line.skip(6) =~= "[DONE]"@);
}

/// A line that does not begin with `data: ` adds nothing, whatever else it
/// holds: a comment, a keep-alive, a blank line.
pub proof fn law_unmarked_line_is_ignored(line: Seq<char>)
    requires
        !"data: "@.is_prefix_of(line),
    ensures
        line_envelope(line) is None,
        line_fragment(line) == Seq::<char>::empty(),
{
}

/// A document with an empty list of choices holds an envelope, and the
/// envelope adds nothing.
pub proof fn law_empty_choices_add_nothing(doc: JsonModel)
    requires
        doc.member("choices"@) == Some(JsonModel::Array(Seq::empty())),
    ensures
        document_envelope(Some(doc)) == Some(Seq::<Seq<char>>::empty()),
        envelope_fragment(document_envelope(Some(doc))->0) == Seq::<char>::empty(),
{
    assert(completion_of_json(doc)->0 =~= Seq::<Seq<char>>::empty());
}

impl SseLine {
    /// Classifies a payload by the document that was parsed from it.
    pub fn from_document(parsed: Option<Json>) -> (r: SseLine)
        ensures
            r@ == document_envelope(document_view(parsed)),
    {
        match parsed {
            Some(doc) => match CompletionResponse::from_json(&doc) {
                Some(response) => SseLine::Envelope(response),
                None => SseLine::Ignored,
            },
            None => SseLine::Ignored,
        }
    }

    /// What this line adds to the answer.
    pub fn fragment(&self) -> (text: &str)
        ensures
            text@ == match self@ {
                Some(contents) => envelope_fragment(contents),
                None => Seq::empty(),
            },
    {
        match self {
            SseLine::Envelope(response) => response.fragment(),
            SseLine::Ignored => {
                proof {
                    reveal_strlit("");
                }
                ""
            },
        }
    }
}

/// The payload of a line, where it begins with `data: `.
pub fn strip_data_prefix(line: &str) -> (r: Option<&str>)
    ensures
        match r {
            Some(payload) => line_payload(line@) == Some(payload@),
            None => line_payload(line@) is None,
        },
{
    proof {
        reveal_strlit("data: ");
    }
    let ghost prefix = "data: "@;
    assert(prefix.len() == 6);
    let n = line.unicode_len();
    if n < 6 {
        return None;
    }
    if line.get_char(0) == 'd' && line.get_char(1) == 'a' && line.get_char(2) == 't'
        && line.get_char(3) == 'a' && line.get_char(4) == ':' && line.get_char(5) == ' ' {
        assert(prefix =~= line@.subrange(0, 6));
        assert(line@.skip(6) =~= line@.subrange(6, n as int));
        Some(line.substring_char(6, n))
    } else {
        assert(!prefix.is_prefix_of(line@)) by {
            if prefix.is_prefix_of(line@) {
                let head = line@.subrange(0, 6);
                assert(prefix == head);
                assert(head[0] == line@[0] && head[1] == line@[1] && head[2] == line@[2]);
                assert(head[3] == line@[3] && head[4] == line@[4] && head[5] == line@[5]);
            }
        }
        None
    }
}

/// Classifies one line of the stream.
pub fn parse_line(line: &str) -> (r: SseLine)
    ensures
        r@ == line_envelope(line@),
{
    match strip_data_prefix(line) {
        Some(payload) => {
            if text_eq(payload, "[DONE]") {
                SseLine::Ignored
            } else {
                SseLine::from_document(parse_json(payload))
            }
        },
        None => SseLine::Ignored,
    }
}

} // verus!
