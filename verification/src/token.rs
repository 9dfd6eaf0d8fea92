//! Input tokens: the names by which inputs are requested, and the diagnostic
//! for one that could not be opened.

use vstd::prelude::*;

verus! {

/// Whether `token` is the token that stands for standard input: a single
/// hyphen.
pub open spec fn is_stdin_token(token: Seq<char>) -> bool {
    token == seq!['-']
}

/// The diagnostic for the input `token` that failed for `reason`, as one line.
pub open spec fn diagnostic_text(token: Seq<char>, reason: Seq<char>) -> Seq<char> {
    token + seq![':', ' '] + reason + seq!['\n']
}

/// Tells whether `token` stands for standard input.
pub fn is_stdin(token: &str) -> (b: bool)
    ensures
        b == is_stdin_token(token@),
{
    let b = token.unicode_len() == 1 && token.get_char(0) == '-';
    assert(b ==> token@ =~= seq!['-']);
    b
}

/// The line for the error channel that says that `token` failed for `reason`.
pub fn diagnostic(token: &str, reason: &str) -> (line: String)
    ensures
        line@ == diagnostic_text(token@, reason@),
{
    proof {
        reveal_strlit(": ");
        reveal_strlit("\n");
    }
    let mut line = String::from_str(token);
    line.append(": ");
    line.append(reason);
    line.append("\n");
    assert(line@ =~= diagnostic_text(token@, reason@));
    line
}

} // verus!
