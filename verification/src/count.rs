//! Counting the lines, words, characters and bytes of a stream.

use crate::decode::{decode_lossy, lossy_text};
use crate::lines::{
    after_first_line, first_line, first_line_splits, line_count, line_count_bound,
    line_count_step, lines,
};
use crate::reader::Reader;
use crate::valid::{valid_stream_splits, valid_stream_words_split};
use crate::words::{word_count, word_starts_bound, words_within};
use vstd::prelude::*;
use vstd::utf8::{decode_utf8, valid_utf8};

verus! {

/// The four counts of one stream, or the running totals of several.
#[derive(Debug, Clone, Copy, PartialEq, Eq, Structural)]
pub struct FileInfo {
    pub num_lines: usize,
    pub num_words: usize,
    pub num_chars: usize,
    pub num_bytes: usize,
}

/// Why counting gave no result.
#[derive(Debug, Clone, Copy, PartialEq, Eq, Structural)]
pub enum CountError {
    /// A count is larger than the machine's largest `usize`.
    Overflow,
}

/// The characters of the given lines together, each line decoded by itself.
pub open spec fn chars_in(ls: Seq<Seq<u8>>) -> nat
    decreases ls.len(),
{
    if ls.len() == 0 {
        0
    } else {
        lossy_text(ls[0]).len() + chars_in(ls.drop_first())
    }
}

/// The words of the given lines together, each line decoded by itself.
pub open spec fn words_in(ls: Seq<Seq<u8>>) -> nat
    decreases ls.len(),
{
    if ls.len() == 0 {
        0
    } else {
        word_count(lossy_text(ls[0])) + words_in(ls.drop_first())
    }
}

/// The number of characters of the stream `s`, counted line by line.
pub open spec fn total_chars(s: Seq<u8>) -> nat {
    chars_in(lines(s))
}

/// The number of words of the stream `s`, counted line by line.
pub open spec fn total_words(s: Seq<u8>) -> nat {
    words_in(lines(s))
}

/// Whether every count of `s` fits a `usize`. The characters decide: there
/// are at least as many of them as words, and a stream in memory has no more
/// bytes, nor lines, than a `usize` holds. It holds of every stream that
/// `count` has counted.
pub open spec fn countable(s: Seq<u8>) -> bool {
    total_chars(s) <= usize::MAX
}

/// The counts of a stream that is not empty are those of its first line and
/// those of the rest.
pub proof fn totals_step(s: Seq<u8>)
    requires
        s.len() > 0,
    ensures
        total_chars(s) == lossy_text(first_line(s)).len() + total_chars(after_first_line(s)),
        total_words(s) == word_count(lossy_text(first_line(s))) + total_words(
            after_first_line(s),
        ),
{
    let ls = lines(s);
    assert(ls[0] == first_line(s));
    assert(ls.drop_first() =~= lines(after_first_line(s)));
}

/// A text has no more words than characters, so a stream has no more words
/// than characters either.
pub proof fn total_words_bound(s: Seq<u8>)
    ensures
        total_words(s) <= total_chars(s),
    decreases s.len(),
{
    if s.len() > 0 {
        first_line_splits(s);
        totals_step(s);
        let text = lossy_text(first_line(s));
        word_starts_bound(text, text.len());
        total_words_bound(after_first_line(s));
    }
}

/// The counts `info` with the lines `ls` counted on top, one after the other.
pub open spec fn fold_lines(info: FileInfo, ls: Seq<Seq<u8>>) -> FileInfo
    decreases ls.len(),
{
    if ls.len() == 0 {
        info
    } else {
        fold_lines(info.with_line(ls[0].len(), lossy_text(ls[0])), ls.drop_first())
    }
}

impl FileInfo {
    /// Whether these are the counts of the stream `s`.
    pub open spec fn counts(&self, s: Seq<u8>) -> bool {
        &&& self.num_lines == line_count(s)
        &&& self.num_words == total_words(s)
        &&& self.num_chars == total_chars(s)
        &&& self.num_bytes == s.len()
    }

    /// Whether one more line of `bytes_read` bytes with the text `text` can be
    /// counted on top of these counts.
    pub open spec fn fits_line(&self, bytes_read: nat, text: Seq<char>) -> bool {
        &&& self.num_lines + 1 <= usize::MAX
        &&& self.num_words + word_count(text) <= usize::MAX
        &&& self.num_chars + text.len() <= usize::MAX
        &&& self.num_bytes + bytes_read <= usize::MAX
    }

    /// These counts with one more line of `bytes_read` bytes and the text
    /// `text`.
    pub open spec fn with_line(&self, bytes_read: nat, text: Seq<char>) -> FileInfo {
        FileInfo {
            num_lines: (self.num_lines + 1) as usize,
            num_words: (self.num_words + word_count(text)) as usize,
            num_chars: (self.num_chars + text.len()) as usize,
            num_bytes: (self.num_bytes + bytes_read) as usize,
        }
    }

    /// Whether the counts `other` can be added to these.
    pub open spec fn fits_sum(&self, other: &FileInfo) -> bool {
        &&& self.num_lines + other.num_lines <= usize::MAX
        &&& self.num_words + other.num_words <= usize::MAX
        &&& self.num_chars + other.num_chars <= usize::MAX
        &&& self.num_bytes + other.num_bytes <= usize::MAX
    }

    /// The sum of these counts and `other`, field by field.
    pub open spec fn sum(&self, other: &FileInfo) -> FileInfo {
        FileInfo {
            num_lines: (self.num_lines + other.num_lines) as usize,
            num_words: (self.num_words + other.num_words) as usize,
            num_chars: (self.num_chars + other.num_chars) as usize,
            num_bytes: (self.num_bytes + other.num_bytes) as usize,
        }
    }

    /// The counts of the empty stream: all zero.
    pub fn zero() -> (info: FileInfo)
        ensures
            info == (FileInfo { num_lines: 0, num_words: 0, num_chars: 0, num_bytes: 0 }),
    {
        FileInfo { num_lines: 0, num_words: 0, num_chars: 0, num_bytes: 0 }
    }

    /// Counts one more line: `bytes_read` raw bytes that decode to `text`.
    pub fn add_text(&self, bytes_read: usize, text: &str) -> (r: Result<FileInfo, CountError>)
        ensures
            self.fits_line(bytes_read as nat, text@) ==> r == Ok::<FileInfo, CountError>(
                self.with_line(bytes_read as nat, text@),
            ),
            !self.fits_line(bytes_read as nat, text@) ==> r == Err::<FileInfo, CountError>(
                CountError::Overflow,
            ),
    {
        let chars = text.unicode_len();
        let words = words_within(text, chars);
        let num_lines = match self.num_lines.checked_add(1) {
            Some(n) => n,
            None => { return Err(CountError::Overflow); },
        };
        let num_words = match self.num_words.checked_add(words) {
            Some(n) => n,
            None => { return Err(CountError::Overflow); },
        };
        let num_chars = match self.num_chars.checked_add(chars) {
            Some(n) => n,
            None => { return Err(CountError::Overflow); },
        };
        let num_bytes = match self.num_bytes.checked_add(bytes_read) {
            Some(n) => n,
            None => { return Err(CountError::Overflow); },
        };
        Ok(FileInfo { num_lines, num_words, num_chars, num_bytes })
    }

    /// Counts one more line, given as the raw bytes that were read.
    pub fn add_line(&self, line: &[u8]) -> (r: Result<FileInfo, CountError>)
        ensures
            self.fits_line(line@.len(), lossy_text(line@)) ==> r == Ok::<FileInfo, CountError>(
                self.with_line(line@.len(), lossy_text(line@)),
            ),
            !self.fits_line(line@.len(), lossy_text(line@)) ==> r == Err::<FileInfo, CountError>(
                CountError::Overflow,
            ),
    {
        let text = decode_lossy(line);
        self.add_text(line.len(), text.as_str())
    }

    /// Adds the counts `other` to these: the step by which totals grow.
    pub fn add(&self, other: &FileInfo) -> (r: Result<FileInfo, CountError>)
        ensures
            self.fits_sum(other) ==> r == Ok::<FileInfo, CountError>(self.sum(other)),
            !self.fits_sum(other) ==> r == Err::<FileInfo, CountError>(CountError::Overflow),
    {
        let num_lines = match self.num_lines.checked_add(other.num_lines) {
            Some(n) => n,
            None => { return Err(CountError::Overflow); },
        };
        let num_words = match self.num_words.checked_add(other.num_words) {
            Some(n) => n,
            None => { return Err(CountError::Overflow); },
        };
        let num_chars = match self.num_chars.checked_add(other.num_chars) {
            Some(n) => n,
            None => { return Err(CountError::Overflow); },
        };
        let num_bytes = match self.num_bytes.checked_add(other.num_bytes) {
            Some(n) => n,
            None => { return Err(CountError::Overflow); },
        };
        Ok(FileInfo { num_lines, num_words, num_chars, num_bytes })
    }
}

/// Counting line by line: on top of counts `info`, the lines of `s` add the
/// counts of `s`, field by field, where the sums fit a `usize`.
pub proof fn fold_lines_adds(info: FileInfo, s: Seq<u8>)
    requires
        info.num_lines + line_count(s) <= usize::MAX,
        info.num_words + total_words(s) <= usize::MAX,
        info.num_chars + total_chars(s) <= usize::MAX,
        info.num_bytes + s.len() <= usize::MAX,
    ensures
        fold_lines(info, lines(s)).num_lines == info.num_lines + line_count(s),
        fold_lines(info, lines(s)).num_words == info.num_words + total_words(s),
        fold_lines(info, lines(s)).num_chars == info.num_chars + total_chars(s),
        fold_lines(info, lines(s)).num_bytes == info.num_bytes + s.len(),
    decreases s.len(),
{
    if s.len() > 0 {
        first_line_splits(s);
        line_count_step(s);
        totals_step(s);
        let first = first_line(s);
        let rest = after_first_line(s);
        assert(lines(s)[0] == first);
        assert(lines(s).drop_first() =~= lines(rest));
        fold_lines_adds(info.with_line(first.len(), lossy_text(first)), rest);
    }
}

/// Counting a stream line by line from zero gives the counts of the stream:
/// what `FileInfo::add_line` builds up over the lines is what `count` returns.
pub proof fn count_is_fold(s: Seq<u8>)
    requires
        countable(s),
        s.len() <= usize::MAX,
    ensures
        fold_lines(
            FileInfo { num_lines: 0, num_words: 0, num_chars: 0, num_bytes: 0 },
            lines(s),
        ).counts(s),
{
    line_count_bound(s);
    total_words_bound(s);
    fold_lines_adds(FileInfo { num_lines: 0, num_words: 0, num_chars: 0, num_bytes: 0 }, s);
}

/// Counts what is left of `stream`, reading it line by line to its end. A
/// stream in memory always has counts: every byte is counted once, and there
/// are no more lines, words or characters than bytes. Of a stream that is
/// valid UTF-8 the characters and words are those of the text that it
/// encodes.
pub fn count(stream: Reader) -> (r: Result<FileInfo, CountError>)
    ensures
        r is Ok,
        r->Ok_0.counts(stream.remaining()),
        r->Ok_0.num_bytes == stream.remaining().len(),
        r->Ok_0.num_lines == line_count(stream.remaining()),
        valid_utf8(stream.remaining()) ==> r->Ok_0.num_chars == decode_utf8(
            stream.remaining(),
        ).len() && r->Ok_0.num_words == word_count(decode_utf8(stream.remaining())),
{
    let ghost s = stream.remaining();
    let mut reader = stream;
    proof {
        stream.remaining_fits();
        line_count_bound(s);
    }
    let mut info = FileInfo::zero();
    loop
        invariant
            s == stream.remaining(),
            s.len() == info.num_bytes + reader.remaining().len(),
            line_count(s) == info.num_lines + line_count(reader.remaining()),
            total_words(s) == info.num_words + total_words(reader.remaining()),
            total_chars(s) == info.num_chars + total_chars(reader.remaining()),
            info.num_words <= info.num_chars <= info.num_bytes,
            line_count(s) <= s.len() <= usize::MAX,
            valid_utf8(s) ==> valid_utf8(reader.remaining()),
            valid_utf8(s) ==> decode_utf8(s).len() == info.num_chars + decode_utf8(
                reader.remaining(),
            ).len(),
            valid_utf8(s) ==> word_count(decode_utf8(s)) == info.num_words + word_count(
                decode_utf8(reader.remaining()),
            ),
        ensures
            info.counts(s),
            valid_utf8(s) ==> info.num_chars == decode_utf8(s).len() && info.num_words
                == word_count(decode_utf8(s)),
        decreases reader.remaining().len(),
    {
        let ghost rest = reader.remaining();
        let (bytes_read, text) = reader.read_line();
        proof {
            first_line_splits(rest);
            if valid_utf8(rest) {
                valid_stream_words_split(rest);
                valid_stream_splits(rest);
            }
        }
        if bytes_read == 0 {
            proof {
                assert(decode_utf8(rest) =~= Seq::<char>::empty());
            }
            break ;
        }
        proof {
            line_count_step(rest);
            totals_step(rest);
            word_starts_bound(text@, text@.len());
        }
        match info.add_text(bytes_read, text.as_str()) {
            Ok(next) => {
                info = next;
            },
            Err(e) => {
                return Err(e);
            },
        }
    }
    Ok(info)
}

} // verus!
