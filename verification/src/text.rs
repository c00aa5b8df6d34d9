//! Numbers as text.

use vstd::prelude::*;

verus! {

/// The character of a digit.
pub open spec fn digit(value: nat) -> char {
    "0123456789abcdef"@[value as int]
}

/// A number in decimal digits.
pub open spec fn decimal(value: nat) -> Seq<char>
    decreases value,
{
    if value < 10 {
        seq![digit(value)]
    } else {
        decimal(value / 10).push(digit(value % 10))
    }
}

/// The last `width` hexadecimal digits of a number.
pub open spec fn hexadecimal(value: nat, width: nat) -> Seq<char>
    decreases width,
{
    if width == 0 {
        Seq::empty()
    } else {
        hexadecimal(value / 16, (width - 1) as nat).push(digit(value % 16))
    }
}

fn append_digit(text: &mut String, value: u64)
    requires
        value < 16,
    ensures
        final(text)@ == old(text)@.push(digit(value as nat)),
{
    proof {
        reveal_strlit("0123456789abcdef");
    }
    let at = value as usize;
    let mark = "0123456789abcdef".substring_char(at, at + 1);
    text.append(mark);
    assert(text@ =~= old(text)@.push(digit(value as nat)));
}

/// Appends a number in decimal digits.
pub fn append_decimal(text: &mut String, value: u64)
    ensures
        final(text)@ == old(text)@ + decimal(value as nat),
    decreases value,
{
    if value < 10 {
        append_digit(text, value);
    } else {
        append_decimal(text, value / 10);
        append_digit(text, value % 10);
    }
    assert(text@ =~= old(text)@ + decimal(value as nat));
}

/// Appends the last `width` hexadecimal digits of a number.
pub fn append_hexadecimal(text: &mut String, value: u64, width: usize)
    ensures
        final(text)@ == old(text)@ + hexadecimal(value as nat, width as nat),
    decreases width,
{
    if width > 0 {
        append_hexadecimal(text, value / 16, width - 1);
        append_digit(text, value % 16);
    }
    assert(text@ =~= old(text)@ + hexadecimal(value as nat, width as nat));
}

/// The number that a character stands for: the digits and the first six small letters.
pub open spec fn value_of(mark: char) -> int {
    if '0' <= mark <= '9' {
        mark as int - '0' as int
    } else {
        mark as int - 'a' as int + 10
    }
}

/// The number that a text stands for, digit by digit, in a base.
pub open spec fn read_number(text: Seq<char>, base: nat) -> int
    decreases text.len(),
{
    if text.len() == 0 {
        0
    } else {
        read_number(text.drop_last(), base) * base + value_of(text.last())
    }
}

/// The number of texts with so many hexadecimal digits.
pub open spec fn texts_of(width: nat) -> nat
    decreases width,
{
    if width == 0 {
        1
    } else {
        16 * texts_of((width - 1) as nat)
    }
}

/// The digits are the ten figures, and for more the first small letters.
pub proof fn law_digits_stand_for_their_value(value: nat)
    requires
        value < 16,
    ensures
        value_of(digit(value)) == value,
        value < 10 ==> '0' <= digit(value) <= '9',
        value >= 10 ==> 'a' <= digit(value) <= 'f',
{
    reveal_strlit("0123456789abcdef");
}

/// A number in decimal digits is read as itself, has nothing but figures, and none too many in front.
pub proof fn law_decimal_is_read_back(value: nat)
    ensures
        read_number(decimal(value), 10) == value,
        decimal(value).len() > 0,
        forall|i: int| 0 <= i < decimal(value).len() ==> '0' <= #[trigger] decimal(value)[i] <= '9',
        value > 0 ==> decimal(value)[0] != '0',
    decreases value,
{
    law_digits_stand_for_their_value(value % 10);
    if value < 10 {
        law_digits_stand_for_their_value(value);
        assert(decimal(value).drop_last() =~= Seq::<char>::empty());
        reveal_with_fuel(read_number, 2);
    } else {
        law_decimal_is_read_back(value / 10);
        assert(decimal(value).drop_last() =~= decimal(value / 10));
        assert(decimal(value)[0] == decimal(value / 10)[0]);
    }
}

/// A number in so many hexadecimal digits has exactly so many, figures and small letters alone, and is
/// read as itself if it fits into them.
pub proof fn law_hexadecimal_is_read_back(value: nat, width: nat)
    ensures
        hexadecimal(value, width).len() == width,
        forall|i: int|
            0 <= i < width ==> '0' <= #[trigger] hexadecimal(value, width)[i] <= '9' || 'a'
                <= hexadecimal(value, width)[i] <= 'f',
        value < texts_of(width) ==> read_number(hexadecimal(value, width), 16) == value,
    decreases width,
{
    if width > 0 {
        law_digits_stand_for_their_value(value % 16);
        law_hexadecimal_is_read_back(value / 16, (width - 1) as nat);
        assert(hexadecimal(value, width).drop_last() =~= hexadecimal(
            value / 16,
            (width - 1) as nat,
        ));
    }
}

/// Every machine number fits into sixteen hexadecimal digits.
pub proof fn law_sixteen_digits_are_enough(value: u64)
    ensures
        read_number(hexadecimal(value as nat, 16), 16) == value,
{
    reveal_with_fuel(texts_of, 17);
    law_hexadecimal_is_read_back(value as nat, 16);
}

} // verus!
