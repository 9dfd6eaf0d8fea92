//! Lines of a byte stream: where a line ends, and the lines that a stream
//! splits into. A line runs up to and including its line feed; the last line
//! of a stream may lack one.

use vstd::prelude::*;

verus! {

/// The line terminator: the line feed.
pub const NEWLINE: u8 = 0x0A;

/// The index just behind the line of `s` that holds index `start`, read from
/// `start` on: behind the first line feed at or after `start`, or the length
/// of `s` where there is none.
pub open spec fn line_end(s: Seq<u8>, start: int) -> int
    recommends
        0 <= start <= s.len(),
    decreases s.len() - start,
{
    if start >= s.len() {
        s.len() as int
    } else if s[start] == NEWLINE {
        start + 1
    } else {
        line_end(s, start + 1)
    }
}

/// The length of the first line of `s`, its terminator included; 0 exactly
/// where `s` is empty.
pub open spec fn line_len(s: Seq<u8>) -> int {
    line_end(s, 0)
}

/// The first line of `s`, with its terminator if it has one.
pub open spec fn first_line(s: Seq<u8>) -> Seq<u8> {
    s.take(line_len(s))
}

/// What is left of `s` behind its first line.
pub open spec fn after_first_line(s: Seq<u8>) -> Seq<u8> {
    s.skip(line_len(s))
}

/// The lines of `s` in order, each with its terminator.
pub open spec fn lines(s: Seq<u8>) -> Seq<Seq<u8>>
    decreases s.len(),
{
    if s.len() == 0 {
        Seq::empty()
    } else {
        proof {
            line_end_bounds(s, 0);
        }
        seq![first_line(s)] + lines(after_first_line(s))
    }
}

/// The number of line feeds in `s`.
pub open spec fn newline_count(s: Seq<u8>) -> nat
    decreases s.len(),
{
    if s.len() == 0 {
        0
    } else {
        newline_count(s.drop_last()) + if s.last() == NEWLINE {
            1nat
        } else {
            0nat
        }
    }
}

/// The number of lines of `s`: one for each line feed, and one more for what
/// follows the last line feed, if anything does.
pub open spec fn line_count(s: Seq<u8>) -> nat {
    newline_count(s) + if s.len() > 0 && s.last() != NEWLINE {
        1nat
    } else {
        0nat
    }
}

/// A line that begins inside `s` is not empty and ends inside `s`; at the end
/// of `s` nothing is left to read.
pub proof fn line_end_bounds(s: Seq<u8>, start: int)
    requires
        0 <= start,
    ensures
        start < s.len() ==> start < line_end(s, start) <= s.len(),
        start >= s.len() ==> line_end(s, start) == s.len(),
    decreases s.len() - start,
{
    if start < s.len() && s[start] != NEWLINE {
        line_end_bounds(s, start + 1);
    }
}

/// A line holds no line feed before its last byte, and ends with one unless it
/// ends the stream.
pub proof fn line_end_is_first_newline(s: Seq<u8>, start: int)
    requires
        0 <= start <= s.len(),
    ensures
        forall|i: int| start <= i < line_end(s, start) - 1 ==> s[i] != NEWLINE,
        line_end(s, start) < s.len() ==> s[line_end(s, start) - 1] == NEWLINE,
        start < s.len() && s[line_end(s, start) - 1] != NEWLINE ==> line_end(s, start) == s.len(),
    decreases s.len() - start,
{
    if start < s.len() && s[start] != NEWLINE {
        line_end_is_first_newline(s, start + 1);
        line_end_bounds(s, start + 1);
    }
}

/// The line feeds of a concatenation are those of its two parts.
pub proof fn newline_count_concat(a: Seq<u8>, b: Seq<u8>)
    ensures
        newline_count(a + b) == newline_count(a) + newline_count(b),
    decreases b.len(),
{
    if b.len() == 0 {
        assert(a + b =~= a);
    } else {
        newline_count_concat(a, b.drop_last());
        assert((a + b).drop_last() =~= a + b.drop_last());
    }
}

/// A sequence without a line feed counts none.
pub proof fn newline_count_none(a: Seq<u8>)
    requires
        forall|i: int| 0 <= i < a.len() ==> a[i] != NEWLINE,
    ensures
        newline_count(a) == 0,
    decreases a.len(),
{
    if a.len() > 0 {
        newline_count_none(a.drop_last());
    }
}

/// A stream is its first line followed by the rest: no byte is lost between
/// them.
pub proof fn first_line_splits(s: Seq<u8>)
    ensures
        first_line(s) + after_first_line(s) == s,
        0 <= line_len(s) <= s.len(),
        s.len() > 0 ==> line_len(s) > 0,
        first_line(s).len() == line_len(s),
        after_first_line(s).len() == s.len() - line_len(s),
{
    line_end_bounds(s, 0);
    assert(first_line(s) + after_first_line(s) =~= s);
}

/// The first line of a stream that is not empty is one line, and the rest of
/// the stream holds the others.
pub proof fn line_count_step(s: Seq<u8>)
    requires
        s.len() > 0,
    ensures
        line_count(s) == 1 + line_count(after_first_line(s)),
{
    let e = line_len(s);
    let first = first_line(s);
    let rest = after_first_line(s);
    first_line_splits(s);
    line_end_is_first_newline(s, 0);
    newline_count_concat(first, rest);
    assert forall|i: int| 0 <= i < first.drop_last().len() implies first.drop_last()[i]
        != NEWLINE by {
        assert(first.drop_last()[i] == s[i]);
    }
    newline_count_none(first.drop_last());
    assert(first.last() == s[e - 1]);
    if rest.len() > 0 {
        assert(rest.last() == s.last());
    } else {
        assert(e == s.len());
    }
}

/// A stream splits into as many lines as `line_count` says.
pub proof fn lines_len(s: Seq<u8>)
    ensures
        lines(s).len() == line_count(s),
    decreases s.len(),
{
    if s.len() > 0 {
        first_line_splits(s);
        line_count_step(s);
        lines_len(after_first_line(s));
    }
}

/// There are no more lines than bytes: `line_count(s) <= s.len()`.
pub proof fn line_count_bound(s: Seq<u8>)
    ensures
        line_count(s) <= s.len(),
    decreases s.len(),
{
    if s.len() > 0 {
        first_line_splits(s);
        line_count_step(s);
        line_count_bound(after_first_line(s));
    }
}

/// The lines of a stream, put together again, are the stream: no byte is lost
/// and none is added.
pub proof fn lines_flatten(s: Seq<u8>)
    ensures
        lines(s).flatten() == s,
    decreases s.len(),
{
    if s.len() > 0 {
        first_line_splits(s);
        lines_flatten(after_first_line(s));
        let ls = lines(s);
        assert(ls.first() == first_line(s));
        assert(ls.drop_first() =~= lines(after_first_line(s)));
        assert(ls.flatten() =~= s);
    } else {
        assert(lines(s).flatten() =~= s);
    }
}

/// No line is empty, none holds a line feed before its last byte, and every
/// line but the last ends with one.
pub proof fn lines_are_terminated(s: Seq<u8>, i: int)
    requires
        0 <= i < lines(s).len(),
    ensures
        lines(s)[i].len() > 0,
        forall|j: int| 0 <= j < lines(s)[i].len() - 1 ==> lines(s)[i][j] != NEWLINE,
        i < lines(s).len() - 1 ==> lines(s)[i].last() == NEWLINE,
    decreases i,
{
    first_line_splits(s);
    line_end_is_first_newline(s, 0);
    let rest = after_first_line(s);
    assert(lines(s).drop_first() =~= lines(rest));
    if i == 0 {
        if lines(s).len() > 1 {
            assert(rest.len() > 0);
        }
    } else {
        lines_are_terminated(rest, i - 1);
        assert(lines(s)[i] == lines(rest)[i - 1]);
    }
}

} // verus!
