//! The truncation tool: the first lines or the first bytes of a stream, and
//! the header that names an input among several.

use crate::decode::{decode_lossy, is_lossy_decoding};
use crate::lines::{
    after_first_line, first_line, first_line_splits, line_count, lines, lines_len,
};
use crate::reader::{prefix_len, Reader};
use vstd::prelude::*;

verus! {

/// How a stream is cut short: after a number of lines, or after a number of
/// bytes.
#[derive(Debug, Clone, Copy, PartialEq, Eq, Structural)]
pub enum Mode {
    Lines(u64),
    Bytes(u64),
}

/// The number of lines that line mode emits of a stream of `total` lines when
/// asked for `n`.
pub open spec fn emitted_lines(n: u64, total: nat) -> nat {
    if n <= total {
        n as nat
    } else {
        total
    }
}

/// Line mode emits the smaller of the limit and the number of lines: never
/// more than `n` lines, never more than there are, and one of the two exactly.
pub proof fn emitted_lines_is_min(n: u64, total: nat)
    ensures
        emitted_lines(n, total) <= n,
        emitted_lines(n, total) <= total,
        emitted_lines(n, total) == n || emitted_lines(n, total) == total,
{
}

/// What is left of `s` behind its first `k` lines; empty where `s` has no more
/// than `k`.
pub open spec fn skip_lines(s: Seq<u8>, k: nat) -> Seq<u8>
    decreases k,
{
    if k == 0 || s.len() == 0 {
        s
    } else {
        skip_lines(after_first_line(s), (k - 1) as nat)
    }
}

/// The header of the input `token`: a line that names it, behind an empty line
/// unless it is the first header of the run.
pub open spec fn header_text(token: Seq<char>, first: bool) -> Seq<char> {
    if first {
        seq!['=', '=', '>', ' '] + token + seq![' ', '<', '=', '=', '\n']
    } else {
        seq!['\n', '=', '=', '>', ' '] + token + seq![' ', '<', '=', '=', '\n']
    }
}

impl Mode {
    /// The mode that the two limits select: byte mode where a number of bytes
    /// is given, else line mode with `lines`.
    pub fn select(lines: u64, bytes: Option<u64>) -> (mode: Mode)
        ensures
            mode == match bytes {
                Some(n) => Mode::Bytes(n),
                None => Mode::Lines(lines),
            },
    {
        match bytes {
            Some(n) => Mode::Bytes(n),
            None => Mode::Lines(lines),
        }
    }
}

/// The headers of one run: how many inputs were requested, and whether a
/// header has been printed yet.
#[derive(Debug, Clone, Copy, PartialEq, Eq, Structural)]
pub struct Headers {
    pub num_inputs: usize,
    pub printed: bool,
}

impl Headers {
    /// The start of a run over `num_inputs` inputs: no header printed yet.
    pub fn new(num_inputs: usize) -> (headers: Headers)
        ensures
            headers.num_inputs == num_inputs,
            !headers.printed,
    {
        Headers { num_inputs, printed: false }
    }

    /// The header to print before the output of the input `token`, which has
    /// been opened: none where it is the only input requested, else a line
    /// that names it, with an empty line before it unless no header was
    /// printed before.
    pub fn next_header(&mut self, token: &str) -> (r: Option<String>)
        ensures
            final(self).num_inputs == old(self).num_inputs,
            old(self).num_inputs > 1 ==> r is Some && r->Some_0@ == header_text(
                token@,
                !old(self).printed,
            ) && final(self).printed,
            old(self).num_inputs <= 1 ==> r is None && final(self).printed == old(self).printed,
    {
        if self.num_inputs > 1 {
            proof {
                reveal_strlit("==> ");
                reveal_strlit("\n==> ");
                reveal_strlit(" <==\n");
            }
            let mut text = if self.printed {
                String::from_str("\n==> ")
            } else {
                String::from_str("==> ")
            };
            text.append(token);
            text.append(" <==\n");
            assert(text@ =~= header_text(token@, !self.printed));
            self.printed = true;
            Some(text)
        } else {
            None
        }
    }
}

/// Line mode, line by line: how many lines may still be emitted.
#[derive(Debug, Clone, Copy, PartialEq, Eq, Structural)]
pub struct LineLimit {
    pub left: u64,
}

impl LineLimit {
    /// Line mode at its start, with `n` lines to emit.
    pub fn new(n: u64) -> (limit: LineLimit)
        ensures
            limit.left == n,
    {
        LineLimit { left: n }
    }

    /// Tells whether another line is to be read: none is once the limit is
    /// reached.
    pub fn wants_line(&self) -> (b: bool)
        ensures
            b == (self.left > 0),
    {
        self.left > 0
    }

    /// Takes the line that was read, as raw bytes, and returns the text to
    /// emit for it. There is none where the limit is reached, or where the
    /// line is empty, which marks the end of the stream.
    pub fn feed(&mut self, line: &[u8]) -> (r: Option<String>)
        ensures
            old(self).left > 0 && line@.len() > 0 ==> r is Some && is_lossy_decoding(
                line@,
                r->Some_0@,
            ) && final(self).left == old(self).left - 1,
            !(old(self).left > 0 && line@.len() > 0) ==> r is None && final(self).left == old(self).left,
    {
        if self.left > 0 && line.len() > 0 {
            self.left = self.left - 1;
            Some(decode_lossy(line))
        } else {
            None
        }
    }
}

/// Line mode: reads the first `n` lines of what is left of `stream`, or all
/// its lines where there are fewer, and returns their texts in order. Nothing
/// behind them is read.
pub fn head_lines(stream: &mut Reader, n: u64) -> (out: Vec<String>)
    ensures
        out@.len() == emitted_lines(n, line_count(old(stream).remaining())),
        out@.len() <= n,
        out@.len() <= lines(old(stream).remaining()).len(),
        forall|i: int|
            0 <= i < out@.len() ==> is_lossy_decoding(
                #[trigger] lines(old(stream).remaining())[i],
                out@[i]@,
            ),
        final(stream).remaining() == skip_lines(old(stream).remaining(), out@.len()),
{
    let ghost s = stream.remaining();
    let mut out: Vec<String> = Vec::new();
    let mut limit = LineLimit::new(n);
    proof {
        lines_len(s);
    }
    while limit.wants_line()
        invariant
            out@.len() + limit.left == n,
            lines(s).len() == line_count(s),
            out@.len() <= lines(s).len(),
            lines(stream.remaining()) =~= lines(s).skip(out@.len() as int),
            stream.remaining() == skip_lines(s, out@.len()),
            forall|i: int|
                0 <= i < out@.len() ==> is_lossy_decoding(#[trigger] lines(s)[i], out@[i]@),
        ensures
            out@.len() == emitted_lines(n, line_count(s)),
        decreases limit.left,
    {
        let ghost rest = stream.remaining();
        let ghost k = out@.len();
        let line = stream.next_line();
        proof {
            first_line_splits(rest);
            lines_len(rest);
        }
        match limit.feed(line) {
            Some(text) => {
                proof {
                    assert(lines(rest)[0] == first_line(rest));
                    assert(lines(rest).drop_first() =~= lines(after_first_line(rest)));
                    assert(lines(s).skip(k as int)[0] == lines(s)[k as int]);
                    assert(lines(s).skip(k as int).drop_first() =~= lines(s).skip(k as int + 1));
                    skip_lines_step(s, k);
                }
                out.push(text);
            },
            None => {
                break ;
            },
        }
    }
    out
}

/// Skipping one line more skips the first line of what was left.
pub proof fn skip_lines_step(s: Seq<u8>, k: nat)
    ensures
        skip_lines(s, k + 1) == after_first_line(skip_lines(s, k)),
    decreases k,
{
    if k == 0 {
        if s.len() == 0 {
            first_line_splits(s);
            assert(after_first_line(s) =~= s);
        } else {
            assert(skip_lines(after_first_line(s), 0) == after_first_line(s));
        }
    } else if s.len() == 0 {
        first_line_splits(s);
        assert(after_first_line(s) =~= s);
    } else {
        skip_lines_step(after_first_line(s), (k - 1) as nat);
    }
}

/// Byte mode: reads the first `n` bytes of what is left of `stream`, or all of
/// it where it is shorter, and returns them as text.
pub fn head_bytes(stream: &mut Reader, n: u64) -> (text: String)
    ensures
        is_lossy_decoding(
            old(stream).remaining().take(prefix_len(old(stream).remaining(), n)),
            text@,
        ),
        final(stream).remaining() == old(stream).remaining().skip(
            prefix_len(old(stream).remaining(), n),
        ),
{
    let bytes = stream.read_bytes(n);
    decode_lossy(bytes)
}

} // verus!
