//! The concatenation tool: lines passed through, with a number before each
//! line or before each line that is not blank.

use crate::count::CountError;
use crate::format::{decimal, format_number, pad_left};
use vstd::prelude::*;

verus! {

/// The width of a line number.
pub const NUMBER_WIDTH: usize = 6;

/// Which lines get a number.
#[derive(Debug, Clone, Copy, PartialEq, Eq, Structural)]
pub enum Numbering {
    /// No line.
    Off,
    /// Every line.
    All,
    /// Every line that is not empty.
    NonBlank,
}

/// Whether `line` gets a number under `mode`.
pub open spec fn is_numbered(mode: Numbering, line: Seq<char>) -> bool {
    match mode {
        Numbering::Off => false,
        Numbering::All => true,
        Numbering::NonBlank => line.len() > 0,
    }
}

/// The output of a line without a number: the line and a line feed.
pub open spec fn plain_line_text(line: Seq<char>) -> Seq<char> {
    line + seq!['\n']
}

/// The output of the line with the number `number`: the number right-aligned
/// in `NUMBER_WIDTH` characters, a tab, the line, and a line feed.
pub open spec fn numbered_line_text(number: nat, line: Seq<char>) -> Seq<char> {
    pad_left(decimal(number), NUMBER_WIDTH as nat) + seq!['\t'] + line + seq!['\n']
}

impl Numbering {
    /// The numbering that the two flags select: every line where
    /// `number_lines` is set, else lines that are not blank where
    /// `number_nonblank` is set, else none.
    pub fn select(number_lines: bool, number_nonblank: bool) -> (mode: Numbering)
        ensures
            mode == if number_lines {
                Numbering::All
            } else if number_nonblank {
                Numbering::NonBlank
            } else {
                Numbering::Off
            },
    {
        if number_lines {
            Numbering::All
        } else if number_nonblank {
            Numbering::NonBlank
        } else {
            Numbering::Off
        }
    }
}

/// The numbering of one input's lines: the mode, and the number that was given
/// last.
#[derive(Debug, Clone, Copy, PartialEq, Eq, Structural)]
pub struct LineNumberer {
    pub mode: Numbering,
    pub last: usize,
}

impl LineNumberer {
    /// The numbering at the start of an input: no number given yet.
    pub fn new(mode: Numbering) -> (numberer: LineNumberer)
        ensures
            numberer.mode == mode,
            numberer.last == 0,
    {
        LineNumberer { mode, last: 0 }
    }

    /// The output of the next line of the input. `line` is the line without
    /// its terminator. A line that gets a number gets the next one; where that
    /// does not fit a `usize`, nothing changes.
    pub fn emit(&mut self, line: &str) -> (r: Result<String, CountError>)
        ensures
            final(self).mode == old(self).mode,
            !is_numbered(old(self).mode, line@) ==> r is Ok && r->Ok_0@ == plain_line_text(line@)
                && final(self).last == old(self).last,
            is_numbered(old(self).mode, line@) && old(self).last < usize::MAX ==> r is Ok
                && r->Ok_0@ == numbered_line_text((old(self).last + 1) as nat, line@) && final(self).last == old(self).last + 1,
            is_numbered(old(self).mode, line@) && old(self).last == usize::MAX ==> r is Err
                && r->Err_0 == CountError::Overflow && final(self).last == old(self).last,
    {
        proof {
            reveal_strlit("\t");
            reveal_strlit("\n");
        }
        let numbered = match self.mode {
            Numbering::Off => false,
            Numbering::All => true,
            Numbering::NonBlank => !line.is_empty(),
        };
        let mut text = if numbered {
            if self.last == usize::MAX {
                return Err(CountError::Overflow);
            }
            self.last = self.last + 1;
            let mut text = format_number(self.last, NUMBER_WIDTH);
            text.append("\t");
            text
        } else {
            String::new()
        };
        text.append(line);
        text.append("\n");
        proof {
            if numbered {
                assert(text@ =~= numbered_line_text(self.last as nat, line@));
            } else {
                assert(text@ =~= plain_line_text(line@));
            }
        }
        Ok(text)
    }
}

} // verus!
