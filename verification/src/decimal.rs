//! Numbers in decimal notation: reading a number from a text and writing one
//! out.

use crate::number::difference;
use crate::number::lemma_wrap;
use crate::number::lemma_wrap_add;
use crate::number::lemma_wrap_mul;
use crate::number::product;
use crate::number::sum;
use crate::number::wrap;
use crate::number::Number;
use crate::rcstring::valid_text;
use crate::rcstring::RcString;
use crate::scan::is_blank;
use crate::scan::is_digit;
use crate::scan::lemma_run_end_unique;
use crate::scan::run_end;
use crate::scan::Class;
use vstd::prelude::*;

verus! {

/// The value of a decimal digit.
pub open spec fn digit_value(chr: char) -> int {
    chr as int - '0' as int
}

/// The digit that stands for `value`.
pub open spec fn digit_char(value: int) -> char {
    if value == 0 {
        '0'
    } else if value == 1 {
        '1'
    } else if value == 2 {
        '2'
    } else if value == 3 {
        '3'
    } else if value == 4 {
        '4'
    } else if value == 5 {
        '5'
    } else if value == 6 {
        '6'
    } else if value == 7 {
        '7'
    } else if value == 8 {
        '8'
    } else {
        '9'
    }
}

/// The natural number that a sequence of digits denotes; 0 for no digits.
pub open spec fn decimal(digits: Seq<char>) -> int
    decreases digits.len(),
{
    if digits.len() == 0 {
        0
    } else {
        decimal(digits.drop_last()) * 10 + digit_value(digits.last())
    }
}

/// The number that a text denotes: after leading white space and one
/// optional sign, the longest run of digits, wrapped into the range of a
/// number. Whatever follows the digits is ignored, and no digits denote 0.
pub open spec fn spec_to_number(text: Seq<char>) -> int {
    let start = run_end(text, 0, Class::Blank);
    let negative = start < text.len() && text[start] == '-';
    let signed = start < text.len() && (text[start] == '-' || text[start] == '+');
    let first = if signed {
        start + 1
    } else {
        start
    };
    let magnitude = decimal(text.subrange(first, run_end(text, first, Class::Digit)));
    if negative {
        wrap(-magnitude)
    } else {
        wrap(magnitude)
    }
}

/// The digits of a natural number, without leading zeros.
pub open spec fn digits_of(n: int) -> Seq<char>
    decreases n,
{
    if n < 10 {
        seq![digit_char(n)]
    } else {
        digits_of(n / 10) + seq![digit_char(n % 10)]
    }
}

/// A number in decimal notation: a minus sign if it is negative, then the
/// digits of its magnitude.
pub open spec fn decimal_text(n: int) -> Seq<char> {
    if n < 0 {
        seq!['-'] + digits_of(-n)
    } else {
        digits_of(n)
    }
}

/// One more digit at the end multiplies by ten and adds the digit.
pub proof fn lemma_decimal_push(text: Seq<char>, first: int, end: int)
    requires
        0 <= first <= end < text.len(),
    ensures
        decimal(text.subrange(first, end + 1)) == decimal(text.subrange(first, end)) * 10
            + digit_value(text[end]),
{
    assert(text.subrange(first, end + 1).drop_last() =~= text.subrange(first, end));
}

/// Whether `chr` is white space in front of a number.
fn blank(chr: char) -> (res: bool)
    ensures
        res == is_blank(chr),
{
    chr == ' ' || chr == '\t' || chr == '\n' || chr == '\r'
}

/// Reads the number that `text` denotes.
pub fn text_to_number(text: &RcString) -> (res: Number)
    ensures
        res == spec_to_number(text@),
{
    let len = text.len();
    let mut start: usize = 0;
    while start < len && blank(text.char_at(start))
        invariant
            start <= len == text@.len(),
            forall|i: int| 0 <= i < start ==> is_blank(#[trigger] text@[i]),
        decreases len - start,
    {
        start = start + 1;
    }
    proof {
        lemma_run_end_unique(text@, 0, Class::Blank, start as int);
    }
    let mut negative = false;
    let mut first = start;
    if start < len {
        let sign = text.char_at(start);
        if sign == '-' {
            negative = true;
            first = start + 1;
        } else if sign == '+' {
            first = start + 1;
        }
    }
    let mut acc: Number = 0;
    let mut pos = first;
    assert(text@.subrange(first as int, pos as int) =~= Seq::<char>::empty());
    while pos < len && digit(text.char_at(pos))
        invariant
            first <= pos <= len == text@.len(),
            forall|i: int| first <= i < pos ==> is_digit(#[trigger] text@[i]),
            acc == wrap(decimal(text@.subrange(first as int, pos as int))),
        decreases len - pos,
    {
        let value = digit_number(text.char_at(pos));
        proof {
            let before = decimal(text@.subrange(first as int, pos as int));
            lemma_decimal_push(text@, first as int, pos as int);
            lemma_wrap_mul(before, 10);
            lemma_wrap_add(before * 10, value as int);
            lemma_wrap_add(wrap(before) * 10, value as int);
            lemma_wrap(value as int);
        }
        acc = sum(product(acc, 10), value);
        pos = pos + 1;
    }
    proof {
        lemma_run_end_unique(text@, first as int, Class::Digit, pos as int);
    }
    if negative {
        proof {
            let magnitude = decimal(text@.subrange(first as int, pos as int));
            lemma_wrap_mul(magnitude, -1);
            assert(wrap(magnitude) * -1 == 0 - wrap(magnitude));
            assert(magnitude * -1 == -magnitude);
        }
        difference(0, acc)
    } else {
        acc
    }
}

/// Whether `chr` is a decimal digit.
pub fn digit(chr: char) -> (res: bool)
    ensures
        res == is_digit(chr),
{
    '0' <= chr && chr <= '9'
}

/// The value of the decimal digit `chr`.
pub fn digit_number(chr: char) -> (res: Number)
    requires
        is_digit(chr),
    ensures
        res == digit_value(chr),
        0 <= res <= 9,
{
    (chr as u8 - '0' as u8) as i64
}

/// The text of one digit.
fn digit_str(value: u64) -> (res: &'static str)
    requires
        value < 10,
    ensures
        res@ == seq![digit_char(value as int)],
{
    proof {
        reveal_strlit("0");
        reveal_strlit("1");
        reveal_strlit("2");
        reveal_strlit("3");
        reveal_strlit("4");
        reveal_strlit("5");
        reveal_strlit("6");
        reveal_strlit("7");
        reveal_strlit("8");
        reveal_strlit("9");
    }
    let res = if value == 0 {
        "0"
    } else if value == 1 {
        "1"
    } else if value == 2 {
        "2"
    } else if value == 3 {
        "3"
    } else if value == 4 {
        "4"
    } else if value == 5 {
        "5"
    } else if value == 6 {
        "6"
    } else if value == 7 {
        "7"
    } else if value == 8 {
        "8"
    } else {
        "9"
    };
    assert(res@ =~= seq![digit_char(value as int)]);
    res
}

/// Writes the digits of `n` at the end of `out`.
pub fn push_digits(n: u64, out: &mut String)
    ensures
        final(out)@ == old(out)@ + digits_of(n as int),
    decreases n,
{
    if n >= 10 {
        push_digits(n / 10, out);
    }
    out.append(digit_str(n % 10));
    proof {
        if n >= 10 {
            assert(final(out)@ =~= old(out)@ + digits_of(n as int));
        }
    }
}

/// The characters of a number in decimal notation are legal in a text.
pub proof fn lemma_decimal_text_valid(n: int)
    ensures
        valid_text(decimal_text(n)),
{
    if n < 0 {
        lemma_digits_valid(-n);
    } else {
        lemma_digits_valid(n);
    }
}

/// Digits are legal in a text.
proof fn lemma_digits_valid(n: int)
    ensures
        valid_text(digits_of(n)),
    decreases n,
{
    if n >= 10 {
        lemma_digits_valid(n / 10);
    }
}

/// The digits of a natural number are digits, at least one, and denote the
/// number.
pub proof fn lemma_digits_of(n: int)
    requires
        0 <= n,
    ensures
        digits_of(n).len() >= 1,
        forall|i: int| 0 <= i < digits_of(n).len() ==> is_digit(#[trigger] digits_of(n)[i]),
        decimal(digits_of(n)) == n,
    decreases n,
{
    if n < 10 {
        assert(digits_of(n).drop_last() =~= Seq::<char>::empty());
        assert(decimal(digits_of(n).drop_last()) == 0);
    } else {
        lemma_digits_of(n / 10);
        assert(digits_of(n).drop_last() =~= digits_of(n / 10));
        assert(digits_of(n).last() == digit_char(n % 10));
    }
}

/// A number that is written out and read again is the same number.
pub proof fn lemma_number_round_trip(n: int)
    requires
        i64::MIN <= n <= i64::MAX,
    ensures
        spec_to_number(decimal_text(n)) == n,
{
    let text = decimal_text(n);
    lemma_wrap(n);
    if n < 0 {
        lemma_digits_of(-n);
        let digits = digits_of(-n);
        assert(text[0] == '-');
        assert(run_end(text, 0, Class::Blank) == 0);
        assert forall|i: int| 1 <= i < text.len() implies Class::Digit.holds(#[trigger] text[i]) by {
            assert(text[i] == digits[i - 1]);
        }
        lemma_run_end_unique(text, 1, Class::Digit, text.len() as int);
        assert(text.subrange(1, text.len() as int) =~= digits);
    } else {
        lemma_digits_of(n);
        assert(is_digit(text[0]));
        assert(run_end(text, 0, Class::Blank) == 0);
        assert forall|i: int| 0 <= i < text.len() implies Class::Digit.holds(#[trigger] text[i]) by {
            assert(is_digit(text[i]));
        }
        lemma_run_end_unique(text, 0, Class::Digit, text.len() as int);
        assert(text.subrange(0, text.len() as int) =~= text);
    }
}

/// Writes `n` in decimal notation.
pub fn number_to_text(n: Number) -> (res: RcString)
    ensures
        res@ == decimal_text(n as int),
{
    let mut out = String::new();
    let magnitude: u64 = if n < 0 {
        proof {
            reveal_strlit("-");
        }
        out.append("-");
        (-(n + 1)) as u64 + 1
    } else {
        n as u64
    };
    push_digits(magnitude, &mut out);
    proof {
        lemma_decimal_text_valid(n as int);
        assert(out@ =~= decimal_text(n as int));
    }
    RcString::from_string(out)
}

} // verus!
