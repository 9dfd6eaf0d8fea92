//! The counting tool's output: which counts are shown, the line of one input,
//! the line of totals, and the totals themselves.

use crate::count::{CountError, FileInfo};
use crate::format::{field_text, format_field};
use crate::token::{is_stdin, is_stdin_token};
use vstd::prelude::*;

verus! {

/// Which of the four counts are shown.
#[derive(Debug, Clone, Copy, PartialEq, Eq, Structural)]
pub struct RequestedFields {
    pub lines: bool,
    pub words: bool,
    pub bytes: bool,
    pub chars: bool,
}

/// The shown counts of `info` one after the other: lines, words, bytes,
/// characters, with nothing between the fields.
pub open spec fn counts_text(info: FileInfo, fields: RequestedFields) -> Seq<char> {
    field_text(info.num_lines as nat, fields.lines) + field_text(
        info.num_words as nat,
        fields.words,
    ) + field_text(info.num_bytes as nat, fields.bytes) + field_text(
        info.num_chars as nat,
        fields.chars,
    )
}

/// What names the input in its output line: a space and the token, or nothing
/// where the token stands for standard input.
pub open spec fn name_text(token: Seq<char>) -> Seq<char> {
    if is_stdin_token(token) {
        Seq::empty()
    } else {
        seq![' '] + token
    }
}

/// The output line of one input: its counts, then its name.
pub open spec fn file_line_text(info: FileInfo, fields: RequestedFields, token: Seq<char>) -> Seq<
    char,
> {
    counts_text(info, fields) + name_text(token) + seq!['\n']
}

/// The output line of the totals: the counts, then the word `total`.
pub open spec fn total_line_text(totals: FileInfo, fields: RequestedFields) -> Seq<char> {
    counts_text(totals, fields) + seq![' ', 't', 'o', 't', 'a', 'l', '\n']
}

impl RequestedFields {
    /// Whether no count was asked for.
    pub open spec fn is_unset(&self) -> bool {
        !self.lines && !self.words && !self.bytes && !self.chars
    }

    /// The fields that are shown where none was asked for: lines, words and
    /// bytes.
    pub open spec fn standard() -> RequestedFields {
        RequestedFields { lines: true, words: true, bytes: true, chars: false }
    }

    /// The fields in effect: these, or the standard ones where none is set.
    pub fn effective(self) -> (fields: RequestedFields)
        ensures
            fields == if self.is_unset() {
                RequestedFields::standard()
            } else {
                self
            },
    {
        if !self.lines && !self.words && !self.bytes && !self.chars {
            RequestedFields { lines: true, words: true, bytes: true, chars: false }
        } else {
            self
        }
    }
}

/// The shown counts of `info` as text.
pub fn format_counts(info: &FileInfo, fields: &RequestedFields) -> (text: String)
    ensures
        text@ == counts_text(*info, *fields),
{
    let mut text = format_field(info.num_lines, fields.lines);
    text.append(format_field(info.num_words, fields.words).as_str());
    text.append(format_field(info.num_bytes, fields.bytes).as_str());
    text.append(format_field(info.num_chars, fields.chars).as_str());
    text
}

/// The output line of the input `token` with the counts `info`.
pub fn format_file_line(info: &FileInfo, fields: &RequestedFields, token: &str) -> (line: String)
    ensures
        line@ == file_line_text(*info, *fields, token@),
{
    proof {
        reveal_strlit(" ");
        reveal_strlit("\n");
    }
    let mut line = format_counts(info, fields);
    if !is_stdin(token) {
        line.append(" ");
        line.append(token);
    }
    line.append("\n");
    assert(line@ =~= file_line_text(*info, *fields, token@));
    line
}

/// The output line of the totals.
pub fn format_total_line(totals: &FileInfo, fields: &RequestedFields) -> (line: String)
    ensures
        line@ == total_line_text(*totals, *fields),
{
    proof {
        reveal_strlit(" total\n");
    }
    let mut line = format_counts(totals, fields);
    line.append(" total\n");
    assert(line@ =~= total_line_text(*totals, *fields));
    line
}

/// One run of the counting tool over its inputs: the fields shown, how many
/// inputs were requested, and the totals of those counted so far.
#[derive(Debug, Clone, Copy, PartialEq, Eq, Structural)]
pub struct Tally {
    pub fields: RequestedFields,
    pub num_inputs: usize,
    pub totals: FileInfo,
}

impl Tally {
    /// The start of a run over `num_inputs` inputs: nothing counted yet.
    pub fn new(fields: RequestedFields, num_inputs: usize) -> (tally: Tally)
        ensures
            tally.fields == fields,
            tally.num_inputs == num_inputs,
            tally.totals == (FileInfo { num_lines: 0, num_words: 0, num_chars: 0, num_bytes: 0 }),
    {
        Tally { fields, num_inputs, totals: FileInfo::zero() }
    }

    /// Takes in the counts `info` of the input `token`: returns its output
    /// line and adds the counts to the totals. Where a total would not fit a
    /// `usize`, nothing changes.
    pub fn record(&mut self, token: &str, info: &FileInfo) -> (r: Result<String, CountError>)
        ensures
            final(self).fields == old(self).fields,
            final(self).num_inputs == old(self).num_inputs,
            old(self).totals.fits_sum(info) ==> r is Ok && r->Ok_0@ == file_line_text(
                *info,
                old(self).fields,
                token@,
            ) && final(self).totals == old(self).totals.sum(info),
            !old(self).totals.fits_sum(info) ==> r is Err && r->Err_0 == CountError::Overflow
                && final(self).totals == old(self).totals,
    {
        match self.totals.add(info) {
            Ok(totals) => {
                self.totals = totals;
                Ok(format_file_line(info, &self.fields, token))
            },
            Err(e) => Err(e),
        }
    }

    /// The line of totals that ends the run: there is one exactly where more
    /// than one input was requested.
    pub fn total_line(&self) -> (r: Option<String>)
        ensures
            self.num_inputs > 1 ==> r is Some && r->Some_0@ == total_line_text(
                self.totals,
                self.fields,
            ),
            self.num_inputs <= 1 ==> r is None,
    {
        if self.num_inputs > 1 {
            Some(format_total_line(&self.totals, &self.fields))
        } else {
            None
        }
    }
}

} // verus!
