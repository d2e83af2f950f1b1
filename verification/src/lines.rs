//! The lines of a stream body.
//!
//! A line feed closes a line; a carriage return directly before it belongs
//! to the line ending. What follows the last line feed is the open line:
//! the last line of a body, where it is not empty.

use vstd::prelude::*;

verus! {

/// The byte that closes a line.
pub const LINE_FEED: u8 = 10;

/// The byte that may stand before a line feed as part of the line ending.
pub const CARRIAGE_RETURN: u8 = 13;

/// Whether the bytes hold no line feed.
pub open spec fn no_line_feed(bytes: Seq<u8>) -> bool {
    forall|i: int| 0 <= i < bytes.len() ==> bytes[i] != LINE_FEED
}

/// The bytes after the last line feed: the line that is not closed yet.
pub open spec fn open_line(bytes: Seq<u8>) -> Seq<u8>
    decreases bytes.len(),
{
    if bytes.len() == 0 || bytes.last() == LINE_FEED {
        Seq::empty()
    } else {
        open_line(bytes.drop_last()).push(bytes.last())
    }
}

/// A closed line without the carriage return of its line ending.
pub open spec fn without_return(line: Seq<u8>) -> Seq<u8> {
    if line.len() > 0 && line.last() == CARRIAGE_RETURN {
        line.drop_last()
    } else {
        line
    }
}

/// The lines that a line feed has closed, in order, without line endings.
pub open spec fn closed_lines(bytes: Seq<u8>) -> Seq<Seq<u8>>
    decreases bytes.len(),
{
    if bytes.len() == 0 {
        Seq::empty()
    } else if bytes.last() == LINE_FEED {
        closed_lines(bytes.drop_last()).push(without_return(open_line(bytes.drop_last())))
    } else {
        closed_lines(bytes.drop_last())
    }
}

/// The last line of a body, given the bytes after its last line feed.
pub open spec fn last_line(rest: Seq<u8>) -> Seq<Seq<u8>> {
    if rest.len() == 0 {
        Seq::empty()
    } else {
        seq![rest]
    }
}

/// All lines of a body, in order.
pub open spec fn body_lines(body: Seq<u8>) -> Seq<Seq<u8>> {
    closed_lines(body) + last_line(open_line(body))
}

/// The bytes up to and including the last line feed.
pub open spec fn closed_part(bytes: Seq<u8>) -> Seq<u8>
    decreases bytes.len(),
{
    if bytes.len() == 0 {
        Seq::empty()
    } else if bytes.last() == LINE_FEED {
        bytes
    } else {
        closed_part(bytes.drop_last())
    }
}

/// One more byte either closes the open line or extends it.
pub proof fn lemma_lines_push(bytes: Seq<u8>, byte: u8)
    ensures
        byte == LINE_FEED ==> closed_lines(bytes.push(byte)) == closed_lines(bytes).push(
            without_return(open_line(bytes)),
        ) && open_line(bytes.push(byte)) == Seq::<u8>::empty(),
        byte != LINE_FEED ==> closed_lines(bytes.push(byte)) == closed_lines(bytes) && open_line(
            bytes.push(byte),
        ) == open_line(bytes).push(byte),
{
    assert(bytes.push(byte).drop_last() =~= bytes);
}

/// The open line holds no line feed.
pub proof fn lemma_open_line_has_no_feed(bytes: Seq<u8>)
    ensures
        no_line_feed(open_line(bytes)),
    decreases bytes.len(),
{
    if bytes.len() != 0 && bytes.last() != LINE_FEED {
        lemma_open_line_has_no_feed(bytes.drop_last());
        let before = open_line(bytes.drop_last());
        assert forall|i: int| 0 <= i < open_line(bytes).len() implies open_line(bytes)[i]
            != LINE_FEED by {
            if i < before.len() {
                assert(open_line(bytes)[i] == before[i]);
            }
        }
    }
}

/// Bytes without a line feed close no line and are their own open line.
pub proof fn lemma_no_feed_no_line(bytes: Seq<u8>)
    requires
        no_line_feed(bytes),
    ensures
        closed_lines(bytes) == Seq::<Seq<u8>>::empty(),
        open_line(bytes) == bytes,
    decreases bytes.len(),
{
    if bytes.len() != 0 {
        lemma_no_feed_no_line(bytes.drop_last());
        assert(bytes.drop_last().push(bytes.last()) =~= bytes);
    }
}

/// Lines do not depend on where the bytes were cut: the lines of two parts
/// are those of the first part, then those of the first part's open line
/// followed by the second part.
pub proof fn lemma_lines_concat(first: Seq<u8>, second: Seq<u8>)
    ensures
        closed_lines(first + second) == closed_lines(first) + closed_lines(
            open_line(first) + second,
        ),
        open_line(first + second) == open_line(open_line(first) + second),
    decreases second.len(),
{
    let carried = open_line(first);
    if second.len() == 0 {
        assert(first + second =~= first);
        assert(carried + second =~= carried);
        lemma_open_line_has_no_feed(first);
        lemma_no_feed_no_line(carried);
        assert(closed_lines(first) + Seq::<Seq<u8>>::empty() =~= closed_lines(first));
    } else {
        let front = second.drop_last();
        let byte = second.last();
        lemma_lines_concat(first, front);
        assert(first + second =~= (first + front).push(byte));
        assert(carried + second =~= (carried + front).push(byte));
        lemma_lines_push(first + front, byte);
        lemma_lines_push(carried + front, byte);
        if byte == LINE_FEED {
            let line = without_return(open_line(carried + front));
            assert((closed_lines(first) + closed_lines(carried + front)).push(line)
                =~= closed_lines(first) + closed_lines(carried + front).push(line));
        }
    }
}

/// Bytes are their closed part followed by their open line.
pub proof fn lemma_parts(bytes: Seq<u8>)
    ensures
        bytes == closed_part(bytes) + open_line(bytes),
        closed_part(bytes).len() > 0 ==> closed_part(bytes).last() == LINE_FEED,
    decreases bytes.len(),
{
    if bytes.len() == 0 {
        assert(bytes =~= closed_part(bytes) + open_line(bytes));
    } else if bytes.last() == LINE_FEED {
        assert(bytes =~= closed_part(bytes) + open_line(bytes));
    } else {
        let front = bytes.drop_last();
        lemma_parts(front);
        assert(front.push(bytes.last()) =~= bytes);
        assert((closed_part(front) + open_line(front)).push(bytes.last()) =~= closed_part(front)
            + open_line(front).push(bytes.last()));
    }
}

/// The lines of a body in which one whole line stands between a head that
/// ends a line and a tail: those of the head, the line, those of the tail.
pub proof fn lemma_line_in_body(head: Seq<u8>, line: Seq<u8>, tail: Seq<u8>)
    requires
        open_line(head).len() == 0,
        no_line_feed(line),
    ensures
        body_lines(head + line.push(LINE_FEED) + tail) == body_lines(head) + seq![
            without_return(line),
        ] + body_lines(tail),
        body_lines(head + tail) == body_lines(head) + body_lines(tail),
{
    let whole = line.push(LINE_FEED);
    let empty = Seq::<u8>::empty();
    lemma_no_feed_no_line(line);
    lemma_lines_push(line, LINE_FEED);
    assert(open_line(head) =~= empty);
    assert(empty + whole =~= whole);
    assert(empty + tail =~= tail);
    assert(empty + (whole + tail) =~= whole + tail);
    assert(head + whole + tail =~= head + (whole + tail));
    lemma_lines_concat(head, whole + tail);
    lemma_lines_concat(whole, tail);
    lemma_lines_concat(head, tail);
    assert(body_lines(head) =~= closed_lines(head));
    assert(closed_lines(whole) =~= seq![without_return(line)]);
    assert(closed_lines(head) + (closed_lines(whole) + closed_lines(tail)) + last_line(
        open_line(tail),
    ) =~= closed_lines(head) + seq![without_return(line)] + (closed_lines(tail) + last_line(
        open_line(tail),
    )));
    assert(closed_lines(head) + closed_lines(tail) + last_line(open_line(tail)) =~= closed_lines(
        head,
    ) + (closed_lines(tail) + last_line(open_line(tail))));
}

/// The lines of a body, read from its beginning: a body without a line
/// feed is its own last line, and a body that begins with a whole line
/// has that line first and then the lines of what follows.
pub proof fn law_lines_from_the_front(line: Seq<u8>, tail: Seq<u8>)
    requires
        no_line_feed(line),
    ensures
        body_lines(line) == last_line(line),
        body_lines(line.push(LINE_FEED) + tail) == seq![without_return(line)] + body_lines(tail),
{
    let empty = Seq::<u8>::empty();
    lemma_no_feed_no_line(line);
    assert(closed_lines(line) + last_line(line) =~= last_line(line));
    lemma_line_in_body(empty, line, tail);
    assert(empty + line.push(LINE_FEED) + tail =~= line.push(LINE_FEED) + tail);
    assert(body_lines(empty) =~= Seq::<Seq<u8>>::empty());
    assert(body_lines(empty) + seq![without_return(line)] + body_lines(tail) =~= seq![
        without_return(line),
    ] + body_lines(tail));
}

} // verus!
