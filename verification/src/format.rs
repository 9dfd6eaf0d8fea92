//! Numbers as text: decimal digits, and right alignment in a field of fixed
//! width.

use vstd::prelude::*;

verus! {

/// The width of one count in a line of counts.
pub const FIELD_WIDTH: usize = 8;

/// The character of the decimal digit `d`.
pub open spec fn digit_char(d: nat) -> char
    recommends
        d < 10,
{
    ('0' as u8 + d) as char
}

/// The decimal digits of `n`, most significant first, without leading zeros.
pub open spec fn decimal(n: nat) -> Seq<char>
    decreases n,
{
    if n < 10 {
        seq![digit_char(n)]
    } else {
        decimal(n / 10).push(digit_char(n % 10))
    }
}

/// `n` spaces.
pub open spec fn spaces(n: nat) -> Seq<char> {
    Seq::new(n, |i: int| ' ')
}

/// `s` with spaces before it up to `width` characters; `s` itself where it is
/// that long already.
pub open spec fn pad_left(s: Seq<char>, width: nat) -> Seq<char> {
    if s.len() >= width {
        s
    } else {
        spaces((width - s.len()) as nat) + s
    }
}

/// The text of one count: empty where the count is not shown, else its decimal
/// digits, right-aligned in a field of `FIELD_WIDTH` characters.
pub open spec fn field_text(value: nat, show: bool) -> Seq<char> {
    if show {
        pad_left(decimal(value), FIELD_WIDTH as nat)
    } else {
        Seq::empty()
    }
}

/// The number that the decimal digits `s` stand for.
pub open spec fn decimal_value(s: Seq<char>) -> nat
    decreases s.len(),
{
    if s.len() == 0 {
        0
    } else {
        decimal_value(s.drop_last()) * 10 + (s.last() as u8 - '0' as u8) as nat
    }
}

/// The digits of a number are decimal digits, and read back as the number.
pub proof fn decimal_reads_back(n: nat)
    ensures
        decimal_value(decimal(n)) == n,
        forall|i: int| 0 <= i < decimal(n).len() ==> '0' <= #[trigger] decimal(n)[i] <= '9',
        n >= 10 ==> decimal(n)[0] != '0',
    decreases n,
{
    let last = digit_char(n % 10);
    assert('0' as u8 == 48 && '9' as u8 == 57);
    assert(last as u8 == 48 + n % 10);
    assert(decimal(n).last() == last);
    if n < 10 {
        assert(decimal(n).drop_last() =~= Seq::<char>::empty());
        assert(decimal_value(decimal(n).drop_last()) == 0);
    } else {
        decimal_reads_back(n / 10);
        decimal_len_positive(n / 10);
        assert(decimal(n).drop_last() =~= decimal(n / 10));
    }
}

/// A number has at least one digit.
pub proof fn decimal_len_positive(n: nat)
    ensures
        decimal(n).len() >= 1,
    decreases n,
{
    if n >= 10 {
        decimal_len_positive(n / 10);
    }
}

/// Padding never shortens and never cuts: the result is at least `width` long,
/// it ends with `s`, and all before `s` is spaces.
pub proof fn pad_left_aligns_right(s: Seq<char>, width: nat)
    ensures
        pad_left(s, width).len() == if s.len() >= width {
            s.len()
        } else {
            width
        },
        pad_left(s, width).skip(pad_left(s, width).len() - s.len()) == s,
        forall|i: int| 0 <= i < pad_left(s, width).len() - s.len() ==> pad_left(s, width)[i] == ' ',
{
    let p = pad_left(s, width);
    assert(p.skip(p.len() - s.len()) =~= s);
}

/// A count that is not shown takes no room. One that is shown takes at least
/// `FIELD_WIDTH` characters: it ends with the digits of `value`, and all
/// before them is spaces.
pub proof fn field_text_aligns_right(value: nat)
    ensures
        field_text(value, false).len() == 0,
        field_text(value, true).len() >= FIELD_WIDTH,
        field_text(value, true).len() >= decimal(value).len(),
        field_text(value, true).skip(field_text(value, true).len() - decimal(value).len())
            == decimal(value),
        forall|i: int|
            0 <= i < field_text(value, true).len() - decimal(value).len() ==> field_text(
                value,
                true,
            )[i] == ' ',
        decimal(value).len() < FIELD_WIDTH ==> field_text(value, true).len() == FIELD_WIDTH,
{
    pad_left_aligns_right(decimal(value), FIELD_WIDTH as nat);
}

/// The one-character string of the decimal digit `d`.
fn digit_str(d: usize) -> (r: &'static str)
    requires
        d < 10,
    ensures
        r@ == seq![digit_char(d as nat)],
{
    proof {
        reveal_strlit("0");
        reveal_strlit("1");
        reveal_strlit("2");
        reveal_strlit("3");
        reveal_strlit("4");
        reveal_strlit("5");
        reveal_strlit("6");
        reveal_strlit("7");
        reveal_strlit("8");
        reveal_strlit("9");
    }
    let r = match d {
        0 => "0",
        1 => "1",
        2 => "2",
        3 => "3",
        4 => "4",
        5 => "5",
        6 => "6",
        7 => "7",
        8 => "8",
        _ => "9",
    };
    assert(r@ =~= seq![digit_char(d as nat)]);
    r
}

/// Appends the decimal digits of `value` to `out`.
pub fn push_decimal(out: &mut String, value: usize)
    ensures
        final(out)@ == old(out)@ + decimal(value as nat),
    decreases value,
{
    if value >= 10 {
        push_decimal(out, value / 10);
    }
    out.append(digit_str(value % 10));
    proof {
        if value >= 10 {
            assert(old(out)@ + decimal(value as nat / 10) + seq![digit_char(value as nat % 10)]
                =~= old(out)@ + decimal(value as nat));
        }
    }
}

/// The decimal digits of `value`, right-aligned in a field of `width`
/// characters; longer where `value` has more digits than that.
pub fn format_number(value: usize, width: usize) -> (text: String)
    ensures
        text@ == pad_left(decimal(value as nat), width as nat),
{
    let mut digits = String::new();
    push_decimal(&mut digits, value);
    assert(digits@ =~= decimal(value as nat));
    let len = digits.as_str().unicode_len();
    let mut text = String::new();
    let mut filled: usize = len;
    while filled < width
        invariant
            len <= filled,
            filled <= width || filled == len,
            text@ == spaces((filled - len) as nat),
        decreases width - filled,
    {
        proof {
            reveal_strlit(" ");
        }
        text.append(" ");
        filled = filled + 1;
        assert(text@ =~= spaces((filled - len) as nat));
    }
    text.append(digits.as_str());
    assert(text@ =~= pad_left(decimal(value as nat), width as nat));
    text
}

/// One count as text: empty where `show` is false, else `value` right-aligned
/// in a field of `FIELD_WIDTH` characters.
pub fn format_field(value: usize, show: bool) -> (text: String)
    ensures
        text@ == field_text(value as nat, show),
        !show ==> text@.len() == 0,
        show ==> text@.len() >= FIELD_WIDTH,
{
    if show {
        format_number(value, FIELD_WIDTH)
    } else {
        String::new()
    }
}

} // verus!
