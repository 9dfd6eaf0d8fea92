//! Whitespace and words: the tokenization by which a line's words are counted.

use vstd::prelude::*;

verus! {

/// Whether `c` has the Unicode `White_Space` property.
pub open spec fn is_whitespace_char(c: char) -> bool {
    let u = c as u32;
    ||| 0x09 <= u <= 0x0D
    ||| u == 0x20
    ||| u == 0x85
    ||| u == 0xA0
    ||| u == 0x1680
    ||| 0x2000 <= u <= 0x200A
    ||| u == 0x2028
    ||| u == 0x2029
    ||| u == 0x202F
    ||| u == 0x205F
    ||| u == 0x3000
}

/// Whether a word begins at index `i` of `s`: the character there is not
/// whitespace, and it is the first of `s` or follows a whitespace character.
pub open spec fn is_word_start(s: Seq<char>, i: int) -> bool {
    &&& 0 <= i < s.len()
    &&& !is_whitespace_char(s[i])
    &&& (i == 0 || is_whitespace_char(s[i - 1]))
}

/// The number of words that begin among the first `n` characters of `s`.
pub open spec fn word_starts(s: Seq<char>, n: nat) -> nat
    decreases n,
{
    if n == 0 {
        0
    } else {
        word_starts(s, (n - 1) as nat) + if is_word_start(s, n - 1) {
            1nat
        } else {
            0nat
        }
    }
}

/// The number of words of `s`: its maximal runs of characters that are not
/// whitespace.
pub open spec fn word_count(s: Seq<char>) -> nat {
    word_starts(s, s.len())
}

/// Tells whether `c` is whitespace.
pub fn is_whitespace(c: char) -> (r: bool)
    ensures
        r == is_whitespace_char(c),
{
    let u: u32 = c as u32;
    (0x09 <= u && u <= 0x0D) || u == 0x20 || u == 0x85 || u == 0xA0 || u == 0x1680 || (0x2000 <= u
        && u <= 0x200A) || u == 0x2028 || u == 0x2029 || u == 0x202F || u == 0x205F || u == 0x3000
}

/// No more words begin among the first `n` characters than there are
/// characters: `word_starts(s, n) <= n`.
pub proof fn word_starts_bound(s: Seq<char>, n: nat)
    ensures
        word_starts(s, n) <= n,
    decreases n,
{
    if n > 0 {
        word_starts_bound(s, (n - 1) as nat);
    }
}

/// Counts the words of `text`, which has `len` characters.
pub(crate) fn words_within(text: &str, len: usize) -> (n: usize)
    requires
        len == text@.len(),
    ensures
        n == word_count(text@),
{
    let mut n: usize = 0;
    let mut after_space: bool = true;
    for c in it: text.chars()
        invariant
            it.seq() == text@,
            len == text@.len(),
            n == word_starts(text@, it.index() as nat),
            after_space == (it.index() == 0 || is_whitespace_char(text@[it.index() - 1])),
    {
        proof {
            word_starts_bound(text@, (it.index() + 1) as nat);
        }
        let space = is_whitespace(c);
        if !space && after_space {
            n = n + 1;
        }
        after_space = space;
    }
    n
}

/// Counts the words of `text`.
pub fn count_words(text: &str) -> (n: usize)
    ensures
        n == word_count(text@),
{
    let len = text.unicode_len();
    words_within(text, len)
}

/// A text of whitespace alone has no words.
pub proof fn whitespace_has_no_words(s: Seq<char>)
    requires
        forall|i: int| 0 <= i < s.len() ==> is_whitespace_char(s[i]),
    ensures
        word_count(s) == 0,
{
    whitespace_has_no_word_starts(s, s.len());
}

/// Among characters that are all whitespace no word begins.
pub proof fn whitespace_has_no_word_starts(s: Seq<char>, n: nat)
    requires
        n <= s.len(),
        forall|i: int| 0 <= i < n ==> is_whitespace_char(s[i]),
    ensures
        word_starts(s, n) == 0,
    decreases n,
{
    if n > 0 {
        whitespace_has_no_word_starts(s, (n - 1) as nat);
    }
}

/// A text with a character that is not whitespace has a word.
pub proof fn text_has_word(s: Seq<char>, i: int)
    requires
        0 <= i < s.len(),
        !is_whitespace_char(s[i]),
    ensures
        word_count(s) >= 1,
    decreases i,
{
    if i > 0 && !is_whitespace_char(s[i - 1]) {
        text_has_word(s, i - 1);
    } else {
        assert(is_word_start(s, i));
        word_starts_grow(s, (i + 1) as nat, s.len());
    }
}

/// The count of word starts does not shrink as more characters are taken in.
pub proof fn word_starts_grow(s: Seq<char>, m: nat, n: nat)
    requires
        m <= n,
    ensures
        word_starts(s, m) <= word_starts(s, n),
    decreases n,
{
    if m < n {
        word_starts_grow(s, m, (n - 1) as nat);
    }
}

/// Word starts of a concatenation, before the seam: those of the first part.
proof fn word_starts_of_prefix(a: Seq<char>, b: Seq<char>, n: nat)
    requires
        n <= a.len(),
    ensures
        word_starts(a + b, n) == word_starts(a, n),
    decreases n,
{
    if n > 0 {
        word_starts_of_prefix(a, b, (n - 1) as nat);
        assert((a + b)[n - 1] == a[n - 1]);
        if n > 1 {
            assert((a + b)[n - 2] == a[n - 2]);
        }
    }
}

/// Word starts of a concatenation, behind the seam: where the first part is
/// empty or ends with whitespace, they are those of the second part.
proof fn word_starts_of_suffix(a: Seq<char>, b: Seq<char>, m: nat)
    requires
        m <= b.len(),
        a.len() == 0 || is_whitespace_char(a.last()),
    ensures
        word_starts(a + b, a.len() + m) == word_starts(a, a.len()) + word_starts(b, m),
    decreases m,
{
    if m == 0 {
        word_starts_of_prefix(a, b, a.len());
    } else {
        word_starts_of_suffix(a, b, (m - 1) as nat);
        let i = a.len() + m - 1;
        assert((a + b)[i] == b[m - 1]);
        if m > 1 {
            assert((a + b)[i - 1] == b[m - 2]);
        } else if a.len() > 0 {
            assert((a + b)[i - 1] == a.last());
        }
        assert(is_word_start(a + b, i) == is_word_start(b, m - 1));
    }
}

/// Words do not run across whitespace: where a text ends with a whitespace
/// character, or either text is empty, the words of the two texts put
/// together are those of the one and those of the other.
pub proof fn word_count_concat(a: Seq<char>, b: Seq<char>)
    requires
        a.len() == 0 || b.len() == 0 || is_whitespace_char(a.last()),
    ensures
        word_count(a + b) == word_count(a) + word_count(b),
{
    if b.len() == 0 {
        assert(a + b =~= a);
    } else {
        word_starts_of_suffix(a, b, b.len());
    }
}

} // verus!
