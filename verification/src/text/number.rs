//! Decimal numbers as text.

use vstd::prelude::*;
use vstd::string::*;

use super::chars::{is_digit, to_chars};

verus! {

pub open spec fn digit_char(value: nat) -> char {
    (('0' as u32 + value) as u32) as char
}

/// The decimal digits of a number, without leading zeros.
pub open spec fn decimal(value: nat) -> Seq<char>
    decreases value,
{
    if value < 10 {
        seq![digit_char(value)]
    } else {
        decimal(value / 10).push(digit_char(value % 10))
    }
}

/// The decimal form of a signed number.
pub open spec fn signed_decimal(value: int) -> Seq<char> {
    if value < 0 {
        seq!['-'] + decimal((-value) as nat)
    } else {
        decimal(value as nat)
    }
}

/// The number padded with zeros on the left to three digits.
pub open spec fn decimal3(value: nat) -> Seq<char> {
    if value < 10 {
        seq!['0', '0'] + decimal(value)
    } else if value < 100 {
        seq!['0'] + decimal(value)
    } else {
        decimal(value)
    }
}

fn digit(value: u64) -> (ch: char)
    requires
        value < 10,
    ensures
        ch == digit_char(value as nat),
{
    let byte: u8 = 48 + value as u8;
    byte as char
}

/// Writes a number in decimal.
pub fn decimal_text(value: u64) -> (text: String)
    ensures
        text@ == decimal(value as nat),
    decreases value,
{
    if value < 10 {
        let mut text: String = String::new();
        text.push(digit(value));
        assert(text@ =~= seq![digit_char(value as nat)]);
        text
    } else {
        let mut text: String = decimal_text(value / 10);
        text.push(digit(value % 10));
        text
    }
}

/// Writes a 128-bit number in decimal.
pub fn wide_decimal_text(value: u128) -> (text: String)
    ensures
        text@ == decimal(value as nat),
    decreases value,
{
    if value < 10 {
        let mut text: String = String::new();
        text.push(digit(value as u64));
        assert(text@ =~= seq![digit_char(value as nat)]);
        text
    } else {
        let mut text: String = wide_decimal_text(value / 10);
        text.push(digit((value % 10) as u64));
        text
    }
}

/// Writes a signed number in decimal.
pub fn signed_decimal_text(value: i64) -> (text: String)
    ensures
        text@ == signed_decimal(value as int),
{
    if value < 0 {
        let magnitude: u64 = if value == i64::MIN {
            0x8000_0000_0000_0000
        } else {
            (-value) as u64
        };
        let mut text: String = String::new();
        text.push('-');
        text.append(decimal_text(magnitude).as_str());
        assert(text@ =~= seq!['-'] + decimal(magnitude as nat));
        text
    } else {
        decimal_text(value as u64)
    }
}

/// Writes a number in decimal, padded to three digits.
pub fn decimal3_text(value: u64) -> (text: String)
    ensures
        text@ == decimal3(value as nat),
{
    let mut text: String = String::new();
    if value < 100 {
        text.push('0');
    }
    if value < 10 {
        text.push('0');
    }
    text.append(decimal_text(value).as_str());
    assert(text@ =~= decimal3(value as nat));
    text
}

/// Why a text is not a number of the wanted width.
#[derive(Clone, Copy, Debug, PartialEq, Eq, Structural)]
pub enum NumberError {
    Empty,
    InvalidDigit,
    TooLarge,
}

impl NumberError {
    pub open spec fn text(self) -> Seq<char> {
        match self {
            NumberError::Empty => "cannot parse integer from empty string"@,
            NumberError::InvalidDigit => "invalid digit found in string"@,
            NumberError::TooLarge => "number too large to fit in target type"@,
        }
    }

    /// The message shown to users.
    pub fn message(&self) -> (message: String)
        ensures
            message@ == self.text(),
    {
        match self {
            NumberError::Empty => "cannot parse integer from empty string".to_owned(),
            NumberError::InvalidDigit => "invalid digit found in string".to_owned(),
            NumberError::TooLarge => "number too large to fit in target type".to_owned(),
        }
    }
}

pub open spec fn digit_value(ch: char) -> nat {
    (ch as u32 - '0' as u32) as nat
}

/// The value of a digit sequence read so far, continued over `digits`; the
/// first offending position decides the error.
pub open spec fn digits_value(value: nat, digits: Seq<char>) -> Result<u64, NumberError>
    decreases digits.len(),
{
    if digits.len() == 0 {
        Ok(value as u64)
    } else if !is_digit(digits[0]) {
        Err(NumberError::InvalidDigit)
    } else if value * 10 + digit_value(digits[0]) > u64::MAX {
        Err(NumberError::TooLarge)
    } else {
        digits_value(value * 10 + digit_value(digits[0]), digits.drop_first())
    }
}

/// Reads an unsigned number: an optional plus sign, then digits only.
pub open spec fn number_value(text: Seq<char>) -> Result<u64, NumberError> {
    if text.len() == 0 {
        Err(NumberError::Empty)
    } else if text[0] == '+' {
        if text.len() == 1 {
            Err(NumberError::InvalidDigit)
        } else {
            digits_value(0, text.drop_first())
        }
    } else {
        digits_value(0, text)
    }
}

/// Parses an unsigned 64-bit number.
pub fn parse_number(text: &str) -> (result: Result<u64, NumberError>)
    ensures
        result == number_value(text@),
{
    let chars: Vec<char> = to_chars(text);
    if chars.len() == 0 {
        return Err(NumberError::Empty);
    }
    let mut at: usize = 0;
    if chars[0] == '+' {
        if chars.len() == 1 {
            return Err(NumberError::InvalidDigit);
        }
        at = 1;
    }
    let mut value: u64 = 0;
    proof {
        assert(text@.skip(0) == text@);
        assert(text@.skip(1) == text@.drop_first());
    }
    while at < chars.len()
        invariant
            at <= chars@.len(),
            chars@ == text@,
            number_value(text@) == digits_value(value as nat, text@.skip(at as int)),
        decreases chars@.len() - at,
    {
        let ch: char = chars[at];
        assert(text@.skip(at as int)[0] == ch);
        assert(text@.skip(at as int).drop_first() == text@.skip(at + 1));
        if ch < '0' || ch > '9' {
            return Err(NumberError::InvalidDigit);
        }
        let unit: u64 = (ch as u32 - '0' as u32) as u64;
        if value > (u64::MAX - unit) / 10 {
            return Err(NumberError::TooLarge);
        }
        value = value * 10 + unit;
        at += 1;
    }
    Ok(value)
}

proof fn digits_value_of_push(value: nat, digits: Seq<char>, last: nat)
    requires
        last < 10,
        digits_value(value, digits) is Ok,
        digits_value(value, digits)->Ok_0 * 10 + last <= u64::MAX,
        value <= u64::MAX,
    ensures
        digits_value(value, digits.push(digit_char(last)))
            == Ok::<u64, NumberError>((digits_value(value, digits)->Ok_0 * 10 + last) as u64),
    decreases digits.len(),
{
    let more = digits.push(digit_char(last));
    assert(is_digit(digit_char(last)));
    assert(digit_value(digit_char(last)) == last);
    if digits.len() == 0 {
        assert(more.drop_first() =~= Seq::<char>::empty());
        assert(digits_value(value * 10 + last, more.drop_first()) == Ok::<u64, NumberError>(
            (value * 10 + last) as u64,
        ));
    } else {
        assert(more.drop_first() =~= digits.drop_first().push(digit_char(last)));
        digits_value_of_push(value * 10 + digit_value(digits[0]), digits.drop_first(), last);
    }
}

proof fn decimal_digits(value: nat)
    requires
        value <= u64::MAX,
    ensures
        decimal(value).len() > 0,
        is_digit(decimal(value)[0]),
        digits_value(0, decimal(value)) == Ok::<u64, NumberError>(value as u64),
    decreases value,
{
    if value < 10 {
        assert(is_digit(digit_char(value)));
        assert(digit_value(digit_char(value)) == value);
        assert(decimal(value).drop_first() =~= Seq::<char>::empty());
        assert(digits_value(value, decimal(value).drop_first()) == Ok::<u64, NumberError>(
            value as u64,
        ));
    } else {
        decimal_digits(value / 10);
        digits_value_of_push(0, decimal(value / 10), value % 10);
    }
}

/// A number written in decimal reads back as itself.
pub proof fn decimal_round_trip(value: u64)
    ensures
        number_value(decimal(value as nat)) == Ok::<u64, NumberError>(value),
{
    decimal_digits(value as nat);
}

/// Decimal texts hold the digits from `0` to `9` only, most significant first,
/// and no leading zero: the last digit is the remainder by ten, the others are
/// those of the quotient.
pub proof fn decimal_is_positional(value: nat)
    ensures
        value < 10 ==> decimal(value).len() == 1,
        value >= 10 ==> decimal(value).drop_last() == decimal(value / 10),
        decimal(value).last() as u32 == 48 + value % 10,
        value > 0 ==> decimal(value)[0] != '0',
        forall|i: int|
            0 <= i < decimal(value).len() ==> '0' <= #[trigger] decimal(value)[i] <= '9',
    decreases value,
{
    if value >= 10 {
        decimal_is_positional(value / 10);
        assert(decimal(value).drop_last() =~= decimal(value / 10));
        assert forall|i: int| 0 <= i < decimal(value).len() implies '0'
            <= #[trigger] decimal(value)[i] <= '9' by {
            if i < decimal(value).len() - 1 {
                assert(decimal(value)[i] == decimal(value / 10)[i]);
            }
        }
        assert(decimal(value)[0] == decimal(value / 10)[0]);
    }
}

/// Different numbers have different texts.
pub proof fn decimals_differ(left: nat, right: nat)
    requires
        decimal(left) == decimal(right),
    ensures
        left == right,
    decreases left,
{
    decimal_is_positional(left);
    decimal_is_positional(right);
    if left >= 10 && right >= 10 {
        decimals_differ(left / 10, right / 10);
    } else if left >= 10 {
        decimal_is_positional(left / 10);
    } else if right >= 10 {
        decimal_is_positional(right / 10);
    }
}

/// A negative number is a minus sign and its magnitude, any other its decimal
/// text.
pub proof fn signs_stand_in_front(value: nat)
    ensures
        signed_decimal(value as int) == decimal(value),
        value > 0 ==> signed_decimal(-(value as int)) == seq!['-'] + decimal(value),
{
}

/// A number below a thousand takes three digits and keeps its value; zeros
/// are only put in front.
pub proof fn three_digits_are_padded(value: nat)
    ensures
        value < 1000 ==> decimal3(value).len() == 3,
        value < 1000 ==> number_value(decimal3(value)) == Ok::<u64, NumberError>(value as u64),
        value >= 100 ==> decimal3(value) == decimal(value),
{
    decimal_is_positional(value);
    if value < 1000 {
        decimal_digits(value);
        if value >= 10 {
            decimal_is_positional(value / 10);
            if value >= 100 {
                decimal_is_positional(value / 100);
                assert(value / 10 / 10 == value / 100);
            }
        }
        if value < 100 {
            let text = decimal3(value);
            assert(is_digit('0') && digit_value('0') == 0);
            if value >= 10 {
                assert(text.drop_first() =~= decimal(value));
            } else {
                assert(text.drop_first() =~= seq!['0'] + decimal(value));
                assert(text.drop_first().drop_first() =~= decimal(value));
                assert(text.drop_first()[0] == '0');
            }
            assert(text[0] == '0');
        }
    }
}

proof fn digits_value_pushes(value: nat, digits: Seq<char>, ch: char)
    requires
        value <= u64::MAX,
    ensures
        digits_value(value, digits.push(ch)) == match digits_value(value, digits) {
            Err(error) => Err::<u64, NumberError>(error),
            Ok(sum) => if !('0' <= ch <= '9') {
                Err(NumberError::InvalidDigit)
            } else if sum * 10 + (ch as u32 - 48) > u64::MAX {
                Err(NumberError::TooLarge)
            } else {
                Ok((sum * 10 + (ch as u32 - 48)) as u64)
            },
        },
    decreases digits.len(),
{
    let more = digits.push(ch);
    if digits.len() == 0 {
        assert(more.drop_first() =~= Seq::<char>::empty());
        if is_digit(ch) && value * 10 + digit_value(ch) <= u64::MAX {
            assert(digits_value(value * 10 + digit_value(ch), more.drop_first()) == Ok::<
                u64,
                NumberError,
            >((value * 10 + digit_value(ch)) as u64));
        }
    } else {
        assert(more.drop_first() =~= digits.drop_first().push(ch));
        if is_digit(digits[0]) && value * 10 + digit_value(digits[0]) <= u64::MAX {
            digits_value_pushes(value * 10 + digit_value(digits[0]), digits.drop_first(), ch);
        }
    }
}

/// A number is read digit by digit: one more digit makes it ten times larger
/// and adds its value, anything but a digit ruins it, and so does what no
/// longer fits 64 bits. A single digit stands for itself; an empty text and a
/// lone sign are no numbers, and a plus sign in front changes nothing.
pub proof fn numbers_are_read_in_tens(text: Seq<char>, ch: char)
    ensures
        number_value(Seq::empty()) == Err::<u64, NumberError>(NumberError::Empty),
        number_value(seq!['+']) == Err::<u64, NumberError>(NumberError::InvalidDigit),
        number_value(seq![ch]) is Ok <==> '0' <= ch <= '9',
        '0' <= ch <= '9' ==> number_value(seq![ch]) == Ok::<u64, NumberError>(
            (ch as u32 - 48) as u64,
        ),
        text.len() > 0 && text[0] != '+' ==> number_value(seq!['+'] + text) == number_value(text),
        text.len() > 0 && text != seq!['+'] ==> number_value(text.push(ch)) == match number_value(
            text,
        ) {
            Err(error) => Err::<u64, NumberError>(error),
            Ok(sum) => if !('0' <= ch <= '9') {
                Err(NumberError::InvalidDigit)
            } else if sum * 10 + (ch as u32 - 48) > 0xffff_ffff_ffff_ffff {
                Err(NumberError::TooLarge)
            } else {
                Ok((sum * 10 + (ch as u32 - 48)) as u64)
            },
        },
{
    let one = seq![ch];
    assert(one.drop_first() =~= Seq::<char>::empty());
    if is_digit(ch) {
        assert(digits_value(digit_value(ch), one.drop_first()) == Ok::<u64, NumberError>(
            digit_value(ch) as u64,
        ));
    }
    if text.len() > 0 {
        assert((seq!['+'] + text).drop_first() =~= text);
        if text[0] == '+' {
            if text.len() == 1 {
                assert(text =~= seq!['+']);
            } else {
                digits_value_pushes(0, text.drop_first(), ch);
                assert(text.push(ch).drop_first() =~= text.drop_first().push(ch));
            }
        } else {
            digits_value_pushes(0, text, ch);
        }
    }
}

} // verus!
