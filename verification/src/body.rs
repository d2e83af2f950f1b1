//! The answer of a stream body.
//!
//! A body is decoded as UTF-8, the text is cut into lines, and each line
//! adds its fragment. The reducer works the other way round: it cuts the
//! bytes into lines and decodes each line. Both give the same, since a
//! line feed never stands inside a character; the proofs are here.

use crate::error::ClientError;
use crate::lines::{
    body_lines, closed_lines, closed_part, last_line, law_lines_from_the_front,
    lemma_line_in_body, lemma_lines_concat, lemma_lines_push, lemma_no_feed_no_line,
    lemma_open_line_has_no_feed, lemma_parts, no_line_feed, open_line, without_return,
    CARRIAGE_RETURN, LINE_FEED,
};
use crate::sse::{
    closed_text_lines, last_text_line, law_end_marker_is_ignored, law_unmarked_line_is_ignored,
    line_envelope, line_fragment, open_text_line, text_answer, text_lines, text_without_return,
};
use crate::text::{
    lemma_ascii_char_byte, lemma_encode_char, lemma_encode_concat, lemma_encode_push,
    lemma_feed_byte_is_feed_char, lemma_split_at_ascii, lemma_text_before_ascii,
};
use vstd::prelude::*;
use vstd::seq_lib::lemma_flatten_concat;
use vstd::utf8::{
    decode_utf8, encode_scalar, encode_utf8, is_ascii_chars_encode_utf8, valid_utf8,
};

verus! {

/// Whether every line is UTF-8 text.
pub open spec fn all_text(lines: Seq<Seq<u8>>) -> bool {
    forall|i: int| 0 <= i < lines.len() ==> valid_utf8(#[trigger] lines[i])
}

/// What each line adds to the answer, in the order of the lines.
pub open spec fn fragments(lines: Seq<Seq<u8>>) -> Seq<char> {
    lines.map_values(|line: Seq<u8>| line_fragment(decode_utf8(line))).flatten()
}

/// The answer that lines add up to: their fragments in order, unless one
/// of the lines is not text.
pub open spec fn lines_answer(lines: Seq<Seq<u8>>) -> Option<Seq<char>> {
    if all_text(lines) {
        Some(fragments(lines))
    } else {
        None
    }
}

/// What two answers add up to, where both are there.
pub open spec fn join_answers(first: Option<Seq<char>>, second: Option<Seq<char>>) -> Option<
    Seq<char>,
> {
    match (first, second) {
        (Some(a), Some(b)) => Some(a + b),
        _ => None,
    }
}

/// The answer of a whole body: the answer of the text that the body
/// encodes, and an encoding error where the body is not UTF-8 text.
pub open spec fn body_answer(body: Seq<u8>) -> Result<Seq<char>, ClientError> {
    if valid_utf8(body) {
        Ok(text_answer(decode_utf8(body)))
    } else {
        Err(ClientError::Encoding)
    }
}

/// The encoding of each line of text.
pub open spec fn encoded(lines: Seq<Seq<char>>) -> Seq<Seq<u8>> {
    lines.map_values(|line: Seq<char>| encode_utf8(line))
}

/// The fragments of two runs of lines are those of the first, then those
/// of the second.
pub proof fn lemma_fragments_concat(first: Seq<Seq<u8>>, second: Seq<Seq<u8>>)
    ensures
        fragments(first + second) == fragments(first) + fragments(second),
{
    let f = |line: Seq<u8>| line_fragment(decode_utf8(line));
    assert((first + second).map_values(f) =~= first.map_values(f) + second.map_values(f));
    lemma_flatten_concat(first.map_values(f), second.map_values(f));
}

/// The answer of two runs of lines joins their answers.
pub proof fn lemma_answer_concat(first: Seq<Seq<u8>>, second: Seq<Seq<u8>>)
    ensures
        lines_answer(first + second) == join_answers(lines_answer(first), lines_answer(second)),
{
    let both = first + second;
    lemma_fragments_concat(first, second);
    if all_text(first) && all_text(second) {
        assert forall|i: int| 0 <= i < both.len() implies valid_utf8(#[trigger] both[i]) by {
            if i < first.len() {
                assert(both[i] == first[i]);
            } else {
                assert(both[i] == second[i - first.len()]);
            }
        }
    } else if !all_text(first) {
        let i = choose|i: int| 0 <= i < first.len() && !valid_utf8(#[trigger] first[i]);
        assert(both[i] == first[i]);
    } else {
        let i = choose|i: int| 0 <= i < second.len() && !valid_utf8(#[trigger] second[i]);
        assert(both[i + first.len()] == second[i]);
    }
}

/// The answer of a single line.
pub proof fn lemma_answer_single(line: Seq<u8>)
    ensures
        lines_answer(seq![line]) == if valid_utf8(line) {
            Some(line_fragment(decode_utf8(line)))
        } else {
            None
        },
{
    let lines = seq![line];
    let f = |l: Seq<u8>| line_fragment(decode_utf8(l));
    assert(lines[0] == line);
    assert(lines.map_values(f) =~= seq![f(line)]);
    seq![f(line)].lemma_flatten_one_element();
}

/// No lines add up to the empty answer.
pub proof fn lemma_answer_empty()
    ensures
        lines_answer(Seq::<Seq<u8>>::empty()) == Some(Seq::<char>::empty()),
{
    let f = |l: Seq<u8>| line_fragment(decode_utf8(l));
    assert(Seq::<Seq<u8>>::empty().map_values(f) =~= Seq::<Seq<char>>::empty());
}

/// Lines with one more line are text exactly when the lines and the line
/// are.
pub proof fn lemma_all_text_push(lines: Seq<Seq<u8>>, line: Seq<u8>)
    ensures
        all_text(lines.push(line)) <==> all_text(lines) && valid_utf8(line),
{
    let more = lines.push(line);
    if all_text(more) {
        assert(more[lines.len() as int] == line);
        assert forall|i: int| 0 <= i < lines.len() implies valid_utf8(#[trigger] lines[i]) by {
            assert(more[i] == lines[i]);
        }
    }
    if all_text(lines) && valid_utf8(line) {
        assert forall|i: int| 0 <= i < more.len() implies valid_utf8(#[trigger] more[i]) by {
            if i < lines.len() {
                assert(more[i] == lines[i]);
            }
        }
    }
}

/// A line of text that adds no fragment may stand anywhere among the
/// lines: their answer is what it is without the line.
pub proof fn lemma_silent_line(
    before: Seq<Seq<u8>>,
    line: Seq<u8>,
    after: Seq<Seq<u8>>,
)
    requires
        valid_utf8(line),
        line_fragment(decode_utf8(line)) == Seq::<char>::empty(),
    ensures
        lines_answer(before + seq![line] + after) == lines_answer(before + after),
{
    lemma_answer_single(line);
    lemma_answer_concat(before, seq![line]);
    lemma_answer_concat(before + seq![line], after);
    lemma_answer_concat(before, after);
    match lines_answer(before) {
        Some(text) => {
            assert(text + Seq::<char>::empty() =~= text);
        },
        None => {},
    }
}

/// Bytes are text exactly when their closed part and their open line are.
pub proof fn lemma_text_parts(bytes: Seq<u8>)
    ensures
        valid_utf8(bytes) <==> valid_utf8(closed_part(bytes)) && valid_utf8(open_line(bytes)),
{
    let closed = closed_part(bytes);
    let open = open_line(bytes);
    lemma_parts(bytes);
    if closed.len() == 0 {
        assert(closed + open =~= open);
        assert(valid_utf8(closed));
    } else {
        let before = closed.drop_last();
        lemma_split_at_ascii(before, LINE_FEED, open);
        lemma_text_before_ascii(before, LINE_FEED);
        assert(before.push(LINE_FEED) =~= closed);
        assert(before + seq![LINE_FEED] + open =~= closed + open);
    }
}

/// A line is text with the carriage return of its line ending exactly
/// when it is text without it.
pub proof fn lemma_return_keeps_text(line: Seq<u8>)
    ensures
        valid_utf8(without_return(line)) <==> valid_utf8(line),
{
    if line.len() > 0 && line.last() == CARRIAGE_RETURN {
        lemma_text_before_ascii(line.drop_last(), CARRIAGE_RETURN);
        assert(line.drop_last().push(CARRIAGE_RETURN) =~= line);
    }
}

/// The closed part of some bytes is text exactly when every closed line
/// is.
pub proof fn lemma_closed_part_text(bytes: Seq<u8>)
    ensures
        valid_utf8(closed_part(bytes)) <==> all_text(closed_lines(bytes)),
    decreases bytes.len(),
{
    if bytes.len() == 0 {
        assert(valid_utf8(closed_part(bytes)));
    } else if bytes.last() == LINE_FEED {
        let front = bytes.drop_last();
        lemma_closed_part_text(front);
        lemma_text_parts(front);
        lemma_text_before_ascii(front, LINE_FEED);
        assert(front.push(LINE_FEED) =~= bytes);
        lemma_return_keeps_text(open_line(front));
        lemma_all_text_push(closed_lines(front), without_return(open_line(front)));
    } else {
        lemma_closed_part_text(bytes.drop_last());
    }
}

/// To take the carriage return off an encoded line is to encode the line
/// without its carriage return.
pub proof fn lemma_return_encoded(line: Seq<char>)
    ensures
        without_return(encode_utf8(line)) == encode_utf8(text_without_return(line)),
{
    if line.len() > 0 {
        let front = line.drop_last();
        let c = line.last();
        let tail = encode_scalar(c as u32);
        assert(front.push(c) =~= line);
        lemma_encode_push(front, c);
        lemma_encode_char(c);
        let bytes = encode_utf8(line);
        assert(bytes.last() == tail.last());
        if c as u32 <= 0x7f {
            lemma_ascii_char_byte(c);
            if c == '\r' {
                assert(bytes.drop_last() =~= encode_utf8(front));
            }
        } else {
            assert(tail[tail.len() - 1] >= 0x80);
        }
    } else {
        assert(encode_utf8(line) =~= Seq::<u8>::empty());
    }
}

/// The lines of an encoded text are the encoded lines of the text.
pub proof fn lemma_encoded_lines(text: Seq<char>)
    ensures
        closed_lines(encode_utf8(text)) == encoded(closed_text_lines(text)),
        open_line(encode_utf8(text)) == encode_utf8(open_text_line(text)),
    decreases text.len(),
{
    if text.len() == 0 {
        assert(encode_utf8(text) =~= Seq::<u8>::empty());
        assert(encoded(closed_text_lines(text)) =~= Seq::<Seq<u8>>::empty());
        assert(encode_utf8(open_text_line(text)) =~= Seq::<u8>::empty());
    } else {
        let front = text.drop_last();
        let c = text.last();
        let bytes = encode_utf8(front);
        let tail = encode_scalar(c as u32);
        lemma_encoded_lines(front);
        assert(front.push(c) =~= text);
        lemma_encode_push(front, c);
        lemma_encode_char(c);
        if c == '\n' {
            let line = text_without_return(open_text_line(front));
            lemma_ascii_char_byte(c);
            assert(bytes + tail =~= bytes.push(LINE_FEED));
            lemma_lines_push(bytes, LINE_FEED);
            lemma_return_encoded(open_text_line(front));
            assert(encoded(closed_text_lines(front).push(line)) =~= encoded(
                closed_text_lines(front),
            ).push(encode_utf8(line)));
            assert(encode_utf8(Seq::<char>::empty()) =~= Seq::<u8>::empty());
        } else {
            let carried = open_line(bytes);
            lemma_lines_concat(bytes, tail);
            lemma_open_line_has_no_feed(bytes);
            assert forall|i: int| 0 <= i < (carried + tail).len() implies (carried + tail)[i]
                != LINE_FEED by {
                if i >= carried.len() && tail[i - carried.len()] == LINE_FEED {
                    lemma_feed_byte_is_feed_char(c, i - carried.len());
                }
            }
            lemma_no_feed_no_line(carried + tail);
            lemma_encode_push(open_text_line(front), c);
            assert(closed_lines(bytes) + Seq::<Seq<u8>>::empty() =~= closed_lines(bytes));
        }
    }
}

/// A text without a line feed is encoded without the byte of a line feed.
pub proof fn lemma_encode_no_feed(line: Seq<char>)
    requires
        forall|i: int| 0 <= i < line.len() ==> line[i] != '\n',
    ensures
        no_line_feed(encode_utf8(line)),
    decreases line.len(),
{
    if line.len() == 0 {
        assert(encode_utf8(line) =~= Seq::<u8>::empty());
    } else {
        let front = line.drop_last();
        let c = line.last();
        let bytes = encode_utf8(front);
        let tail = encode_scalar(c as u32);
        lemma_encode_no_feed(front);
        assert(front.push(c) =~= line);
        lemma_encode_push(front, c);
        lemma_encode_char(c);
        assert forall|i: int| 0 <= i < (bytes + tail).len() implies (bytes + tail)[i]
            != LINE_FEED by {
            if i >= bytes.len() && tail[i - bytes.len()] == LINE_FEED {
                lemma_feed_byte_is_feed_char(c, i - bytes.len());
            }
        }
    }
}

/// Lines with the same encodings are the same lines.
pub proof fn lemma_encoded_is_one_to_one(first: Seq<Seq<char>>, second: Seq<Seq<char>>)
    requires
        encoded(first) == encoded(second),
    ensures
        first == second,
{
    broadcast use vstd::utf8::encode_utf8_decode_utf8;

    assert(first.len() == encoded(first).len());
    assert(second.len() == encoded(second).len());
    assert forall|i: int| 0 <= i < first.len() implies first[i] == second[i] by {
        assert(encoded(first)[i] == encode_utf8(first[i]));
        assert(encoded(second)[i] == encode_utf8(second[i]));
        assert(decode_utf8(encode_utf8(first[i])) == first[i]);
        assert(decode_utf8(encode_utf8(second[i])) == second[i]);
    }
    assert(first =~= second);
}

/// The lines of a body that is text are the lines of the text, encoded;
/// so the fragments of the body's lines are the answer of the text.
pub proof fn law_lines_of_text(body: Seq<u8>)
    requires
        valid_utf8(body),
    ensures
        body_lines(body) == encoded(text_lines(decode_utf8(body))),
        fragments(body_lines(body)) == text_answer(decode_utf8(body)),
{
    broadcast use {vstd::utf8::decode_utf8_encode_utf8, vstd::utf8::encode_utf8_decode_utf8};

    let text = decode_utf8(body);
    let open = open_text_line(text);
    assert(encode_utf8(text) == body);
    lemma_encoded_lines(text);
    if open.len() == 0 {
        assert(encode_utf8(open) =~= Seq::<u8>::empty());
    } else {
        assert(open.drop_last().push(open.last()) =~= open);
        lemma_encode_push(open.drop_last(), open.last());
        lemma_encode_char(open.last());
    }
    assert(last_line(encode_utf8(open)) =~= encoded(last_text_line(open)));
    assert(encoded(closed_text_lines(text)) + encoded(last_text_line(open)) =~= encoded(
        text_lines(text),
    ));
    let lines = text_lines(text);
    assert forall|i: int| 0 <= i < lines.len() implies decode_utf8(
        #[trigger] encode_utf8(lines[i]),
    ) == lines[i] by {}
    assert(encoded(lines).map_values(|line: Seq<u8>| line_fragment(decode_utf8(line)))
        =~= lines.map_values(|line: Seq<char>| line_fragment(line)));
}

/// A body is UTF-8 text exactly when each of its lines is: a line feed
/// never stands inside a character, so to cut at line feeds and then
/// decode is to decode and then cut. The answer of the body is therefore
/// the answer of its lines.
pub proof fn law_body_is_text_when_lines_are(body: Seq<u8>)
    ensures
        valid_utf8(body) <==> all_text(body_lines(body)),
        body_answer(body) == match lines_answer(body_lines(body)) {
            Some(answer) => Ok::<Seq<char>, ClientError>(answer),
            None => Err(ClientError::Encoding),
        },
{
    let open = open_line(body);
    if valid_utf8(body) {
        law_lines_of_text(body);
    }
    lemma_text_parts(body);
    lemma_closed_part_text(body);
    if open.len() == 0 {
        assert(valid_utf8(open));
        assert(body_lines(body) =~= closed_lines(body));
    } else {
        assert(closed_lines(body) + seq![open] =~= closed_lines(body).push(open));
        lemma_all_text_push(closed_lines(body), open);
    }
}

/// The lines of a text, read from its beginning: a text without a line
/// feed is its own last line, and a text that begins with a whole line
/// has that line first and then the lines of what follows.
pub proof fn law_text_lines_from_the_front(line: Seq<char>, tail: Seq<char>)
    requires
        forall|i: int| 0 <= i < line.len() ==> line[i] != '\n',
    ensures
        text_lines(line) == last_text_line(line),
        text_lines(line.push('\n') + tail) == seq![text_without_return(line)] + text_lines(tail),
{
    broadcast use {vstd::utf8::encode_utf8_valid_utf8, vstd::utf8::encode_utf8_decode_utf8};

    let text = line.push('\n') + tail;
    let bytes = encode_utf8(line);
    lemma_encode_no_feed(line);
    lemma_encode_push(line, '\n');
    lemma_encode_char('\n');
    lemma_ascii_char_byte('\n');
    lemma_encode_concat(line.push('\n'), tail);
    assert(encode_utf8(text) =~= bytes.push(LINE_FEED) + encode_utf8(tail));
    law_lines_from_the_front(bytes, encode_utf8(tail));
    lemma_return_encoded(line);
    law_lines_of_text(encode_utf8(text));
    law_lines_of_text(encode_utf8(tail));
    law_lines_of_text(bytes);
    let first = seq![text_without_return(line)] + text_lines(tail);
    assert(encoded(first) =~= seq![encode_utf8(text_without_return(line))] + encoded(
        text_lines(tail),
    ));
    lemma_encoded_is_one_to_one(text_lines(text), first);
    if line.len() == 0 {
        assert(bytes =~= Seq::<u8>::empty());
    } else {
        assert(line.drop_last().push(line.last()) =~= line);
        lemma_encode_push(line.drop_last(), line.last());
        lemma_encode_char(line.last());
    }
    assert(encoded(last_text_line(line)) =~= last_line(bytes));
    lemma_encoded_is_one_to_one(text_lines(line), last_text_line(line));
}

/// A whole line of text that adds no fragment may stand in a body
/// wherever a line may begin: the answer, or the failure, of the body is
/// what it is without the line.
pub proof fn law_silent_line_leaves_answer(head: Seq<u8>, line: Seq<u8>, tail: Seq<u8>)
    requires
        open_line(head).len() == 0,
        no_line_feed(line),
        valid_utf8(without_return(line)),
        line_fragment(decode_utf8(without_return(line))) == Seq::<char>::empty(),
    ensures
        body_answer(head + line.push(LINE_FEED) + tail) == body_answer(head + tail),
{
    lemma_line_in_body(head, line, tail);
    law_body_is_text_when_lines_are(head + line.push(LINE_FEED) + tail);
    law_body_is_text_when_lines_are(head + tail);
    lemma_silent_line(body_lines(head), without_return(line), body_lines(tail));
}

/// The line `data: [DONE]` may stand in a body wherever a line may begin:
/// it adds no character to the answer and causes no failure.
pub proof fn law_end_marker_leaves_answer(head: Seq<u8>, tail: Seq<u8>)
    requires
        open_line(head).len() == 0,
    ensures
        body_answer(head + encode_utf8("data: [DONE]"@).push(LINE_FEED) + tail) == body_answer(
            head + tail,
        ),
{
    broadcast use {vstd::utf8::encode_utf8_valid_utf8, vstd::utf8::encode_utf8_decode_utf8};

    let text = "data: [DONE]"@;
    let line = encode_utf8(text);
    reveal_strlit("data: [DONE]");
    is_ascii_chars_encode_utf8(text);
    assert(line.len() == 12);
    assert(line[11] == text[11] as u8);
    assert forall|i: int| 0 <= i < line.len() implies line[i] != LINE_FEED by {
        assert(line[i] == text[i] as u8);
    }
    assert(without_return(line) == line);
    assert(decode_utf8(line) == text);
    law_end_marker_is_ignored();
    law_silent_line_leaves_answer(head, line, tail);
}

/// A whole line of text that does not begin with `data: ` may stand in a
/// body wherever a line may begin: it adds no character to the answer and
/// causes no failure.
pub proof fn law_unmarked_line_leaves_answer(head: Seq<u8>, line: Seq<u8>, tail: Seq<u8>)
    requires
        open_line(head).len() == 0,
        no_line_feed(line),
        valid_utf8(without_return(line)),
        !"data: "@.is_prefix_of(decode_utf8(without_return(line))),
    ensures
        body_answer(head + line.push(LINE_FEED) + tail) == body_answer(head + tail),
{
    law_unmarked_line_is_ignored(decode_utf8(without_return(line)));
    law_silent_line_leaves_answer(head, line, tail);
}

/// A whole line of text whose envelope has no choice may stand in a body
/// wherever a line may begin: it adds no character to the answer and
/// causes no failure.
pub proof fn law_empty_choices_leave_answer(head: Seq<u8>, line: Seq<u8>, tail: Seq<u8>)
    requires
        open_line(head).len() == 0,
        no_line_feed(line),
        valid_utf8(without_return(line)),
        line_envelope(decode_utf8(without_return(line))) == Some(Seq::<Seq<char>>::empty()),
    ensures
        body_answer(head + line.push(LINE_FEED) + tail) == body_answer(head + tail),
{
    law_silent_line_leaves_answer(head, line, tail);
}

} // verus!
