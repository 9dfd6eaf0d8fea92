//! The echo tool: its arguments on one line.

use vstd::prelude::*;

verus! {

/// The texts `words` with one space between each two.
pub open spec fn joined(words: Seq<Seq<char>>) -> Seq<char>
    decreases words.len(),
{
    if words.len() == 0 {
        Seq::empty()
    } else if words.len() == 1 {
        words[0]
    } else {
        joined(words.drop_last()) + seq![' '] + words.last()
    }
}

/// The texts of the strings `words`.
pub open spec fn texts(words: Seq<String>) -> Seq<Seq<char>> {
    words.map_values(|w: String| w@)
}

/// What the tool prints for `words`: the words with spaces between them, and
/// a line feed unless it is left out.
pub open spec fn echo_text(words: Seq<Seq<char>>, omit_newline: bool) -> Seq<char> {
    if omit_newline {
        joined(words)
    } else {
        joined(words) + seq!['\n']
    }
}

/// The output for the arguments `words`.
pub fn echo(words: &Vec<String>, omit_newline: bool) -> (out: String)
    ensures
        out@ == echo_text(texts(words@), omit_newline),
{
    let mut out = String::new();
    let mut i: usize = 0;
    while i < words.len()
        invariant
            i <= words@.len(),
            out@ == joined(texts(words@).take(i as int)),
        decreases words@.len() - i,
    {
        let ghost before = texts(words@).take(i as int);
        let ghost after = texts(words@).take(i + 1);
        proof {
            reveal_strlit(" ");
            assert(after.drop_last() =~= before);
            assert(after.last() == words@[i as int]@);
        }
        if i > 0 {
            out.append(" ");
        }
        out.append(words[i].as_str());
        proof {
            if i == 0 {
                assert(out@ =~= after[0]);
            }
        }
        i = i + 1;
    }
    assert(texts(words@).take(i as int) =~= texts(words@));
    if !omit_newline {
        proof {
            reveal_strlit("\n");
        }
        out.append("\n");
    }
    out
}

} // verus!
