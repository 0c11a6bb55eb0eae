//! Decimal numbers as text: how they are written and how they are read back.

use vstd::arithmetic::power::pow;
use vstd::prelude::*;

verus! {

/// Whether `c` is one of the ten decimal digits.
pub open spec fn is_digit(c: char) -> bool {
    '0' <= c && c <= '9'
}

/// Whether `text` is a non-empty run of decimal digits.
pub open spec fn is_number(text: Seq<char>) -> bool {
    text.len() > 0 && forall|i: int| 0 <= i < text.len() ==> is_digit(#[trigger] text[i])
}

/// The number that a run of digits stands for, the most significant digit first.
pub open spec fn digits_value(digits: Seq<char>) -> nat
    decreases digits.len(),
{
    if digits.len() == 0 {
        0
    } else {
        10 * digits_value(digits.drop_last()) + (digits.last() as nat - '0' as nat) as nat
    }
}

/// The integer that `text` stands for: digits behind at most one sign.
pub open spec fn integer_value(text: Seq<char>) -> Option<int> {
    let signed = text.len() > 0 && (text[0] == '-' || text[0] == '+');
    let digits = if signed {
        text.drop_first()
    } else {
        text
    };
    if !is_number(digits) {
        None
    } else if signed && text[0] == '-' {
        Some(-(digits_value(digits) as int))
    } else {
        Some(digits_value(digits) as int)
    }
}

/// The 32-bit integer that `text` stands for, if it is one and fits.
pub open spec fn i32_value(text: Seq<char>) -> Option<i32> {
    match integer_value(text) {
        Some(value) => if i32::MIN <= value && value <= i32::MAX {
            Some(value as i32)
        } else {
            None
        },
        None => None,
    }
}

/// Reads a 32-bit integer: an optional sign, then digits and nothing else.
pub fn parse_i32(text: &str) -> (result: Option<i32>)
    ensures
        result == i32_value(text@),
{
    let mut first = true;
    let mut negative = false;
    let mut some_digit = false;
    let mut too_big = false;
    let mut value: u64 = 0;
    let ghost mut sign: Seq<char> = Seq::empty();
    let ghost mut digits: Seq<char> = Seq::empty();
    for c in it: text.chars()
        invariant
            it.seq() == text@,
            text@.take(it.index()) == sign + digits,
            first == (it.index() == 0),
            sign == Seq::<char>::empty() || sign == seq!['-'] || sign == seq!['+'],
            negative == (sign == seq!['-']),
            some_digit == (digits.len() > 0),
            forall|i: int| 0 <= i < digits.len() ==> is_digit(#[trigger] digits[i]),
            too_big ==> digits_value(digits) > 0x8000_0000,
            !too_big ==> value == digits_value(digits) && value <= 0x8000_0000,
    {
        proof {
            assert(text@.take(it.index() + 1) == text@.take(it.index()).push(c));
        }
        if first && (c == '-' || c == '+') {
            negative = c == '-';
            proof {
                sign = seq![c];
            }
        } else if '0' <= c && c <= '9' {
            proof {
                assert(digits.push(c).drop_last() == digits);
                digits = digits.push(c);
            }
            some_digit = true;
            if !too_big {
                value = value * 10 + (c as u64 - '0' as u64);
                too_big = value > 0x8000_0000;
            }
        } else {
            proof {
                let at = it.index();
                assert(at > 0 ==> text@[0] == text@.take(at)[0]);
                assert(!is_digit(text@[at]));
                if sign.len() > 0 {
                    assert(!is_digit(text@.drop_first()[at - 1]));
                } else if at > 0 {
                    assert(is_digit(digits[0]));
                }
            }
            return None;
        }
        first = false;
    }
    proof {
        assert(text@.take(text@.len() as int) == text@);
        assert(sign.len() > 0 ==> text@.drop_first() == digits);
        assert(sign.len() == 0 ==> text@ == digits);
    }
    if !some_digit || too_big {
        None
    } else if negative {
        Some((-(value as i64)) as i32)
    } else if value > 0x7fff_ffff {
        None
    } else {
        Some(value as i32)
    }
}

/// The character of a decimal digit.
pub open spec fn digit_char(digit: nat) -> char
    recommends
        digit < 10,
{
    ('0' as nat + digit) as char
}

/// How a number is written: its digits, without leading zeros.
pub open spec fn number_text(number: nat) -> Seq<char>
    decreases number,
{
    if number < 10 {
        seq![digit_char(number)]
    } else {
        number_text(number / 10).push(digit_char(number % 10))
    }
}

/// How an integer is written: a minus sign where it is negative, then its digits.
pub open spec fn integer_text(value: int) -> Seq<char> {
    if value < 0 {
        seq!['-'] + number_text((-value) as nat)
    } else {
        number_text(value as nat)
    }
}

/// The text of one digit.
fn digit_text(digit: u32) -> (text: &'static str)
    requires
        digit < 10,
    ensures
        text@ == seq![digit_char(digit as nat)],
{
    proof {
        reveal_strlit("0");
        reveal_strlit("1");
        reveal_strlit("2");
        reveal_strlit("3");
        reveal_strlit("4");
        reveal_strlit("5");
        reveal_strlit("6");
        reveal_strlit("7");
        reveal_strlit("8");
        reveal_strlit("9");
    }
    match digit {
        0 => "0",
        1 => "1",
        2 => "2",
        3 => "3",
        4 => "4",
        5 => "5",
        6 => "6",
        7 => "7",
        8 => "8",
        _ => "9",
    }
}

/// Appends the digits of `number` to `out`.
pub fn append_number(out: &mut String, number: u32)
    ensures
        final(out)@ == old(out)@ + number_text(number as nat),
    decreases number,
{
    if number >= 10 {
        append_number(out, number / 10);
    }
    out.append(digit_text(number % 10));
}

/// Appends `value` to `out` in decimal.
pub fn append_i32(out: &mut String, value: i32)
    ensures
        final(out)@ == old(out)@ + integer_text(value as int),
{
    if value < 0 {
        proof {
            reveal_strlit("-");
        }
        out.append("-");
        append_number(out, (-(value as i64)) as u32);
    } else {
        append_number(out, value as u32);
    }
}

/// A number that is written is a run of digits, and those digits stand for it.
pub proof fn number_text_reads_back(number: nat)
    ensures
        is_number(number_text(number)),
        digits_value(number_text(number)) == number,
    decreases number,
{
    if number < 10 {
        assert(number_text(number).drop_last() == Seq::<char>::empty());
        assert(digits_value(number_text(number).drop_last()) == 0);
    } else {
        number_text_reads_back(number / 10);
        assert(number_text(number).drop_last() == number_text(number / 10));
    }
}

/// Reading what was written gives back the integer, for every 32-bit integer.
pub proof fn i32_reads_back(value: i32)
    ensures
        i32_value(integer_text(value as int)) == Some(value),
{
    let text = integer_text(value as int);
    if value < 0 {
        number_text_reads_back((-value) as nat);
        assert(text.drop_first() == number_text((-value) as nat));
    } else {
        number_text_reads_back(value as nat);
        assert(is_digit(text[0]));
    }
}

/// A number is written without a zero before other digits.
pub proof fn number_text_is_shortest(number: nat)
    ensures
        number_text(number).len() > 1 ==> number_text(number)[0] != '0',
        number > 0 ==> number_text(number)[0] != '0',
    decreases number,
{
    if number >= 10 {
        number_text_is_shortest(number / 10);
        number_text_reads_back(number / 10);
        assert(number_text(number)[0] == number_text(number / 10)[0]);
    }
}

/// Digits stand for what their places make them worth: each digit in front of others is
/// worth ten times what it would be without the last of them, and a digit alone is worth
/// its distance from zero.
pub proof fn digits_are_worth_their_place(high: Seq<char>, low: Seq<char>, digit: char)
    ensures
        digits_value(high + low) == digits_value(high) * pow(10, low.len()) + digits_value(low),
        '0' <= digit && digit <= '9' ==> digits_value(seq![digit]) == digit as int - '0' as int,
        digits_value(Seq::empty()) == 0,
    decreases low.len(),
{
    reveal(pow);
    reveal_with_fuel(digits_value, 2);
    assert(seq![digit].drop_last() == Seq::<char>::empty());
    if low.len() == 0 {
        assert(high + low == high);
        assert(pow(10, 0) == 1);
    } else {
        let rest = low.drop_last();
        digits_are_worth_their_place(high, rest, digit);
        assert((high + low).drop_last() == high + rest);
        assert((high + low).last() == low.last());
        let value = digits_value(high) as int;
        let place = pow(10, rest.len());
        assert(pow(10, low.len()) == 10 * place);
        assert(10 * (value * place) == value * (10 * place)) by (nonlinear_arith);
    }
}

/// Digits are read as the number that they stand for, with a plus sign before them as
/// without, and with a minus sign as its negative; but for numbers that do not fit,
/// which are not read.
pub proof fn digits_are_read(digits: Seq<char>)
    requires
        digits.len() > 0,
        forall|i: int|
            0 <= i < digits.len() ==> '0' <= (#[trigger] digits[i]) && digits[i] <= '9',
    ensures
        digits_value(digits) <= 0x7fff_ffff ==> i32_value(digits) == Some(
            digits_value(digits) as i32,
        ),
        digits_value(digits) > 0x7fff_ffff ==> i32_value(digits) is None,
        i32_value(seq!['+'] + digits) == i32_value(digits),
        digits_value(digits) <= 0x8000_0000 ==> i32_value(seq!['-'] + digits) == Some(
            (-(digits_value(digits) as int)) as i32,
        ),
        digits_value(digits) > 0x8000_0000 ==> i32_value(seq!['-'] + digits) is None,
{
    assert((seq!['+'] + digits).drop_first() == digits);
    assert((seq!['-'] + digits).drop_first() == digits);
    assert('0' <= digits[0] && digits[0] <= '9');
    assert(is_number(digits));
}

/// A text with anything but digits behind its first character is not read, nor one whose
/// first character is neither a digit nor a sign, nor one without digits.
pub proof fn other_texts_are_not_read(text: Seq<char>, i: int)
    requires
        ({
            ||| text.len() == 0
            ||| text.len() == 1 && (text[0] == '-' || text[0] == '+')
            ||| 0 < i < text.len() && !('0' <= text[i] && text[i] <= '9')
            ||| text.len() > 0 && !('0' <= text[0] && text[0] <= '9') && text[0] != '-' && text[0]
                != '+'
        }),
    ensures
        i32_value(text) is None,
{
    if text.len() > 0 {
        if 0 < i < text.len() && !('0' <= text[i] && text[i] <= '9') {
            assert(!is_digit(text[i]));
            assert(!is_digit(text.drop_first()[i - 1]));
        } else {
            assert(!is_digit(text[0]));
        }
    }
}

/// An integer is written with a minus sign where it is negative, with no other sign, and
/// with no zero before other digits; the digits stand for it without its sign.
pub proof fn integer_text_is_shortest(value: int)
    ensures
        value >= 0 ==> {
            &&& is_number(integer_text(value))
            &&& digits_value(integer_text(value)) == value
            &&& integer_text(value).len() > 1 ==> integer_text(value)[0] != '0'
        },
        value < 0 ==> {
            &&& integer_text(value).len() > 1
            &&& integer_text(value)[0] == '-'
            &&& is_number(integer_text(value).drop_first())
            &&& digits_value(integer_text(value).drop_first()) == -value
            &&& integer_text(value)[1] != '0'
        },
{
    if value < 0 {
        number_text_reads_back((-value) as nat);
        number_text_is_shortest((-value) as nat);
        assert(integer_text(value).drop_first() == number_text((-value) as nat));
    } else {
        number_text_reads_back(value as nat);
        number_text_is_shortest(value as nat);
    }
}

} // verus!
