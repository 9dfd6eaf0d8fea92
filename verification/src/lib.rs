//! Text utilities in the manner of `cat`, `echo`, `head` and `wc`, as a
//! library on values in memory: streams are byte slices, output is text that
//! the caller prints.
//!
//! - `lines`, `reader`: where lines end, and a reader that hands out a stream
//!   by lines or by a bounded number of bytes.
//! - `decode`, `words`, `valid`: lossy decoding, whitespace and words, and
//!   what holds of streams that are valid UTF-8.
//! - `count`, `format`, `wc`: the four counts of a stream, their fields and
//!   output lines, and the totals of a run.
//! - `head`: the first lines or bytes of a stream, and the headers between
//!   inputs.
//! - `cat`, `echo`, `token`: line numbering, joined arguments, input tokens
//!   and diagnostics.

pub mod cat;
pub mod count;
pub mod decode;
pub mod echo;
pub mod format;
pub mod head;
pub mod lines;
pub mod reader;
pub mod token;
pub mod valid;
pub mod wc;
pub mod words;
