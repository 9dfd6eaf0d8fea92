//! Streams that are valid UTF-8: their lines are valid UTF-8 too, and the
//! text of the stream is the texts of its lines, one after the other.

use crate::lines::{
    after_first_line, first_line, first_line_splits, line_end_is_first_newline, line_len, NEWLINE,
};
use crate::words::{is_whitespace_char, word_count, word_count_concat};
use vstd::prelude::*;
use vstd::utf8::{
    decode_utf8, decode_utf8_split, encode_utf8, encode_utf8_decode_utf8, encode_utf8_valid_utf8,
    is_ascii_chars, is_ascii_chars_encode_utf8, is_char_boundary,
    is_char_boundary_iff_not_is_continuation_byte, is_char_boundary_start_end_of_seq,
    length_of_first_scalar, pop_first_scalar, valid_utf8, valid_utf8_concat, valid_utf8_split,
};

verus! {

/// The line feed byte alone is valid UTF-8, and decodes to the line feed
/// character.
pub proof fn newline_decodes()
    ensures
        valid_utf8(seq![NEWLINE]),
        decode_utf8(seq![NEWLINE]) == seq!['\n'],
{
    let chars = seq!['\n'];
    assert(is_ascii_chars(chars));
    is_ascii_chars_encode_utf8(chars);
    assert(chars[0] as u8 == NEWLINE);
    assert(encode_utf8(chars) =~= seq![NEWLINE]);
    encode_utf8_decode_utf8(chars);
    encode_utf8_valid_utf8(chars);
}

/// A line ends at a character boundary: the first line of a valid stream and
/// what follows it are valid, and the text of the stream is the text of the
/// line followed by the text of the rest. Where anything follows the line, the
/// line's text ends with the line feed character.
pub proof fn valid_stream_splits(s: Seq<u8>)
    requires
        valid_utf8(s),
    ensures
        valid_utf8(first_line(s)),
        valid_utf8(after_first_line(s)),
        decode_utf8(s) == decode_utf8(first_line(s)) + decode_utf8(after_first_line(s)),
        after_first_line(s).len() > 0 ==> decode_utf8(first_line(s)).len() > 0 && decode_utf8(
            first_line(s),
        ).last() == '\n',
{
    let e = line_len(s);
    let first = first_line(s);
    let rest = after_first_line(s);
    first_line_splits(s);
    line_end_is_first_newline(s, 0);
    if rest.len() == 0 {
        assert(first =~= s);
        assert(decode_utf8(rest) =~= Seq::<char>::empty());
        assert(decode_utf8(s) =~= decode_utf8(first) + decode_utf8(rest));
    } else {
        // The line feed that ends the line begins a character, and is one.
        let i = e - 1;
        assert(s[i] == NEWLINE);
        is_char_boundary_iff_not_is_continuation_byte(s, i);
        valid_utf8_split(s, i);
        decode_utf8_split(s, i);
        let before = s.subrange(0, i);
        let from_feed = s.subrange(i, s.len() as int);
        assert(from_feed[0] == NEWLINE);
        assert(length_of_first_scalar(from_feed) == 1);
        assert(pop_first_scalar(from_feed) =~= rest);
        assert(valid_utf8(rest));
        is_char_boundary_start_end_of_seq(rest);
        assert(is_char_boundary(from_feed, 1)) by {
            reveal_with_fuel(is_char_boundary, 2);
        }
        decode_utf8_split(from_feed, 1);
        assert(from_feed.subrange(0, 1) =~= seq![NEWLINE]);
        assert(from_feed.subrange(1, from_feed.len() as int) =~= rest);
        newline_decodes();
        assert(decode_utf8(from_feed) =~= seq!['\n'] + decode_utf8(rest));
        // The line is what stands before the feed, and the feed.
        assert(first =~= before + seq![NEWLINE]);
        valid_utf8_concat(before, seq![NEWLINE]);
        is_char_boundary_iff_not_is_continuation_byte(first, i);
        decode_utf8_split(first, i);
        assert(first.subrange(0, i) =~= before);
        assert(first.subrange(i, first.len() as int) =~= seq![NEWLINE]);
        assert(decode_utf8(first) =~= decode_utf8(before) + seq!['\n']);
        assert(decode_utf8(s) =~= decode_utf8(first) + decode_utf8(rest));
    }
}

/// The words of a valid stream are those of its first line and those of the
/// rest: no word runs across a line feed.
pub proof fn valid_stream_words_split(s: Seq<u8>)
    requires
        valid_utf8(s),
    ensures
        word_count(decode_utf8(s)) == word_count(decode_utf8(first_line(s))) + word_count(
            decode_utf8(after_first_line(s)),
        ),
        decode_utf8(s).len() == decode_utf8(first_line(s)).len() + decode_utf8(
            after_first_line(s),
        ).len(),
{
    valid_stream_splits(s);
    let a = decode_utf8(first_line(s));
    let b = decode_utf8(after_first_line(s));
    if after_first_line(s).len() == 0 {
        assert(b =~= Seq::<char>::empty());
    } else {
        assert(is_whitespace_char('\n'));
    }
    word_count_concat(a, b);
}

} // verus!
