//! UTF-8 text and the bytes at which it may be cut.
//!
//! A byte below 128 is a character of its own in UTF-8: it never stands
//! inside the encoding of another character. So a sequence of bytes may be
//! cut before and after such a byte, and is text exactly when both sides
//! are.

use vstd::prelude::*;
use vstd::utf8::{
    char_is_scalar, encode_scalar, encode_utf8, is_char_boundary_iff_not_is_continuation_byte,
    length_of_first_scalar, pop_first_scalar, valid_first_scalar, valid_utf8, valid_utf8_concat,
    valid_utf8_split,
};

verus! {

/// A single byte below 128 is text.
pub proof fn lemma_ascii_byte_is_text(byte: u8)
    requires
        byte <= 0x7f,
    ensures
        valid_utf8(seq![byte]),
{
    let one = seq![byte];
    assert((byte & 0x7f) as u32 <= 0x7f) by (bit_vector);
    assert(valid_first_scalar(one));
    assert(pop_first_scalar(one) =~= Seq::<u8>::empty());
    assert(valid_utf8(pop_first_scalar(one)));
}

/// Bytes around a byte below 128 are text exactly when the bytes before it
/// and the bytes after it are.
pub proof fn lemma_split_at_ascii(before: Seq<u8>, byte: u8, after: Seq<u8>)
    requires
        byte <= 0x7f,
    ensures
        valid_utf8(before + seq![byte] + after) <==> valid_utf8(before) && valid_utf8(after),
{
    let bytes = before + seq![byte] + after;
    let cut = before.len() as int;
    let tail = seq![byte] + after;
    assert(bytes.subrange(0, cut) =~= before);
    assert(bytes.subrange(cut, bytes.len() as int) =~= tail);
    assert(tail.subrange(1, tail.len() as int) =~= after);
    lemma_ascii_byte_is_text(byte);
    if valid_utf8(bytes) {
        assert(bytes[cut] == byte);
        is_char_boundary_iff_not_is_continuation_byte(bytes, cut);
        valid_utf8_split(bytes, cut);
        assert(valid_utf8(tail));
        assert(length_of_first_scalar(tail) == 1);
        assert(valid_utf8(pop_first_scalar(tail)));
    }
    if valid_utf8(before) && valid_utf8(after) {
        valid_utf8_concat(before, seq![byte]);
        valid_utf8_concat(before + seq![byte], after);
    }
}

/// Bytes that end in a byte below 128 are text exactly when the bytes
/// before it are.
pub proof fn lemma_text_before_ascii(before: Seq<u8>, byte: u8)
    requires
        byte <= 0x7f,
    ensures
        valid_utf8(before.push(byte)) <==> valid_utf8(before),
{
    lemma_split_at_ascii(before, byte, Seq::empty());
    assert(before + seq![byte] + Seq::<u8>::empty() =~= before.push(byte));
    assert(valid_utf8(Seq::<u8>::empty()));
}

/// The encoding of two texts, one after the other, is the encoding of the
/// first followed by that of the second.
pub proof fn lemma_encode_concat(first: Seq<char>, second: Seq<char>)
    ensures
        encode_utf8(first + second) == encode_utf8(first) + encode_utf8(second),
    decreases first.len(),
{
    if first.len() == 0 {
        assert(first + second =~= second);
        assert(encode_utf8(first) + encode_utf8(second) =~= encode_utf8(second));
    } else {
        lemma_encode_concat(first.drop_first(), second);
        assert((first + second).drop_first() =~= first.drop_first() + second);
        assert(encode_scalar(first[0] as u32) + (encode_utf8(first.drop_first()) + encode_utf8(
            second,
        )) =~= encode_scalar(first[0] as u32) + encode_utf8(first.drop_first()) + encode_utf8(
            second,
        ));
    }
}

/// The encoding of a text with one more character.
pub proof fn lemma_encode_push(text: Seq<char>, c: char)
    ensures
        encode_utf8(text.push(c)) == encode_utf8(text) + encode_scalar(c as u32),
{
    lemma_encode_concat(text, seq![c]);
    assert(text.push(c) =~= text + seq![c]);
    assert(seq![c].drop_first() =~= Seq::<char>::empty());
    assert(encode_utf8(Seq::<char>::empty()) =~= Seq::<u8>::empty());
    assert(encode_utf8(seq![c]) =~= encode_scalar(c as u32));
}

/// A character below 128 and its byte stand for each other: the byte is
/// a line feed, or a carriage return, exactly when the character is.
pub proof fn lemma_ascii_char_byte(c: char)
    requires
        c as u32 <= 0x7f,
    ensures
        c as u8 == c as u32,
        c as u8 == 10 <==> c == '\n',
        c as u8 == 13 <==> c == '\r',
{
    assert('\n' as u32 == 10);
    assert('\r' as u32 == 13);
    if c as u32 == 10 {
        assert(c == '\n');
    }
    if c as u32 == 13 {
        assert(c == '\r');
    }
}

/// Whether every byte is 128 or more.
pub open spec fn all_high(bytes: Seq<u8>) -> bool {
    forall|i: int| 0 <= i < bytes.len() ==> #[trigger] bytes[i] >= 0x80
}

/// A character below 128 is encoded as one byte, of the same value; every
/// other character as bytes from 128 on.
pub proof fn lemma_encode_char(c: char)
    ensures
        c as u32 <= 0x7f ==> encode_scalar(c as u32) == seq![c as u8],
        c as u32 > 0x7f ==> all_high(encode_scalar(c as u32)),
        encode_scalar(c as u32).len() > 0,
{
    let v = c as u32;
    char_is_scalar(c);
    if v <= 0x7f {
        assert((v & 0x7F) as u8 == v as u8) by (bit_vector)
            requires
                v <= 0x7f,
        ;
        assert(encode_scalar(v) =~= seq![c as u8]);
    } else {
        assert(0xC0u8 | ((v >> 6) & 0x1F) as u8 >= 0x80) by (bit_vector);
        assert(0xE0u8 | ((v >> 12) & 0x0F) as u8 >= 0x80) by (bit_vector);
        assert(0xF0u8 | ((v >> 18) & 0x7) as u8 >= 0x80) by (bit_vector);
        assert(0x80u8 | (v & 0x3F) as u8 >= 0x80) by (bit_vector);
        assert(0x80u8 | ((v >> 6) & 0x3F) as u8 >= 0x80) by (bit_vector);
        assert(0x80u8 | ((v >> 12) & 0x3F) as u8 >= 0x80) by (bit_vector);
    }
}

/// The encoding of a character holds the byte of a line feed only where
/// the character is a line feed.
pub proof fn lemma_feed_byte_is_feed_char(c: char, i: int)
    requires
        0 <= i < encode_scalar(c as u32).len(),
        encode_scalar(c as u32)[i] == 10,
    ensures
        c == '\n',
{
    lemma_encode_char(c);
    if c as u32 <= 0x7f {
        lemma_ascii_char_byte(c);
    }
}

} // verus!
