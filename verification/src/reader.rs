//! A reader over a byte stream held in memory: it hands out the stream line by
//! line, or a bounded number of bytes at once.

use crate::decode::{decode_lossy, is_lossy_decoding};
use crate::lines::{after_first_line, first_line, line_end, line_end_bounds, line_len, NEWLINE};
use vstd::prelude::*;
use vstd::slice::slice_subrange;

verus! {

/// A byte stream and how far it has been read.
pub struct Reader<'a> {
    data: &'a [u8],
    pos: usize,
}

/// Line ends carry over to a suffix: in the suffix of `s` that begins at
/// `pos`, a line ends `pos` bytes earlier than it does in `s`.
pub proof fn line_end_of_suffix(s: Seq<u8>, pos: int, start: int)
    requires
        0 <= pos <= start <= s.len(),
    ensures
        line_end(s.skip(pos), start - pos) == line_end(s, start) - pos,
    decreases s.len() - start,
{
    if start < s.len() && s[start] != NEWLINE {
        line_end_of_suffix(s, pos, start + 1);
    }
}

/// How many bytes a read of at most `limit` bytes takes from `s`: `limit`, or
/// all of `s` where it is shorter.
pub open spec fn prefix_len(s: Seq<u8>, limit: u64) -> int {
    if limit < s.len() {
        limit as int
    } else {
        s.len() as int
    }
}

/// A bounded read takes the smaller of the limit and what is there: never more
/// than `limit` bytes, never more than `s` holds, and one of the two exactly.
pub proof fn prefix_len_is_min(s: Seq<u8>, limit: u64)
    ensures
        0 <= prefix_len(s, limit) <= limit,
        prefix_len(s, limit) <= s.len(),
        prefix_len(s, limit) == limit || prefix_len(s, limit) == s.len(),
{
}

impl<'a> Reader<'a> {
    #[verifier::type_invariant]
    spec fn in_bounds(&self) -> bool {
        self.pos <= self.data@.len()
    }

    /// The bytes that have not been read yet.
    pub closed spec fn remaining(&self) -> Seq<u8> {
        if self.pos <= self.data@.len() {
            self.data@.skip(self.pos as int)
        } else {
            Seq::empty()
        }
    }

    /// The bytes that have been read.
    pub closed spec fn consumed(&self) -> Seq<u8> {
        self.data@.take(self.pos as int)
    }

    /// A reader at the start of `data`.
    pub fn new(data: &'a [u8]) -> (r: Self)
        ensures
            r.remaining() == data@,
            r.consumed() == Seq::<u8>::empty(),
    {
        let r = Reader { data, pos: 0 };
        assert(data@.skip(0) =~= data@);
        assert(data@.take(0) =~= Seq::<u8>::empty());
        r
    }

    /// Reads the next line, terminator included, as raw bytes. The result is
    /// empty exactly at the end of the stream.
    pub fn next_line(&mut self) -> (line: &'a [u8])
        ensures
            line@ == first_line(old(self).remaining()),
            final(self).remaining() == after_first_line(old(self).remaining()),
            final(self).consumed() == old(self).consumed() + line@,
            line@.len() == 0 <==> old(self).remaining().len() == 0,
    {
        proof {
            use_type_invariant(&*self);
        }
        let start = self.pos;
        let len = self.data.len();
        let mut end = start;
        let mut found = false;
        while end < len && !found
            invariant
                start <= end <= len,
                len == self.data@.len(),
                found ==> end > start && line_end(self.data@, start as int) == end,
                !found ==> line_end(self.data@, start as int) == line_end(self.data@, end as int),
            decreases len - end,
        {
            if self.data[end] == NEWLINE {
                found = true;
            }
            end = end + 1;
        }
        let line = slice_subrange(self.data, start, end);
        proof {
            line_end_of_suffix(self.data@, start as int, start as int);
            line_end_bounds(self.data@, start as int);
            assert(self.data@.skip(start as int).take(end - start) =~= self.data@.subrange(
                start as int,
                end as int,
            ));
            assert(self.data@.skip(start as int).skip(end - start) =~= self.data@.skip(end as int));
            assert(self.data@.take(end as int) =~= self.data@.take(start as int) + line@);
        }
        self.pos = end;
        line
    }

    /// Reads the next line and decodes it: the number of raw bytes read, and
    /// the line's text with its terminator. The number is 0 exactly at the end
    /// of the stream.
    pub fn read_line(&mut self) -> (r: (usize, String))
        ensures
            r.0 == line_len(old(self).remaining()),
            is_lossy_decoding(first_line(old(self).remaining()), r.1@),
            final(self).remaining() == after_first_line(old(self).remaining()),
            final(self).consumed() == old(self).consumed() + first_line(old(self).remaining()),
            r.0 == 0 <==> old(self).remaining().len() == 0,
    {
        proof {
            line_end_bounds(self.remaining(), 0);
        }
        let line = self.next_line();
        (line.len(), decode_lossy(line))
    }

    /// Reads at most `limit` bytes, fewer only where the stream ends first,
    /// and returns exactly the bytes read.
    pub fn read_bytes(&mut self, limit: u64) -> (bytes: &'a [u8])
        ensures
            bytes@ == old(self).remaining().take(prefix_len(old(self).remaining(), limit)),
            bytes@.len() == prefix_len(old(self).remaining(), limit),
            bytes@.len() <= limit,
            final(self).remaining() == old(self).remaining().skip(bytes@.len() as int),
            final(self).consumed() == old(self).consumed() + bytes@,
    {
        proof {
            use_type_invariant(&*self);
        }
        let start = self.pos;
        let left = self.data.len() - start;
        let end = if limit < left as u64 {
            start + limit as usize
        } else {
            self.data.len()
        };
        let bytes = slice_subrange(self.data, start, end);
        proof {
            assert(self.data@.skip(start as int).take(end - start) =~= self.data@.subrange(
                start as int,
                end as int,
            ));
            assert(self.data@.skip(start as int).skip(end - start) =~= self.data@.skip(end as int));
            assert(self.data@.take(end as int) =~= self.data@.take(start as int) + bytes@);
        }
        self.pos = end;
        bytes
    }

    /// What is left to read is no longer than a `usize` holds.
    pub proof fn remaining_fits(&self)
        ensures
            self.remaining().len() <= usize::MAX,
    {
        assert(self.data@.len() == self.data.len());
    }

    /// The number of bytes that have not been read yet.
    pub fn remaining_len(&self) -> (n: usize)
        ensures
            n == self.remaining().len(),
    {
        proof {
            use_type_invariant(self);
        }
        self.data.len() - self.pos
    }

    /// Tells whether the whole stream has been read.
    pub fn is_at_end(&self) -> (b: bool)
        ensures
            b == (self.remaining().len() == 0),
    {
        proof {
            use_type_invariant(self);
        }
        self.pos == self.data.len()
    }
}

} // verus!
