//! Numbers written in decimal digits.

use vstd::prelude::*;
use vstd::string::StrSliceExecFns;
use vstd::utf8::encode_utf8;

verus! {

pub open spec fn is_digit(byte: u8) -> bool {
    0x30 <= byte <= 0x39
}

pub open spec fn all_digits(digits: Seq<u8>) -> bool {
    forall|i: int| 0 <= i < digits.len() ==> is_digit(#[trigger] digits[i])
}

/// The number that the decimal digits `digits` write.
pub open spec fn digits_value(digits: Seq<u8>) -> int
    decreases digits.len(),
{
    if digits.len() == 0 {
        0
    } else {
        digits_value(digits.drop_last()) * 10 + (digits.last() - 0x30)
    }
}

/// `text` without the plus sign that it may start with.
pub open spec fn unsigned_part(text: Seq<u8>) -> Seq<u8> {
    if text.len() > 0 && text[0] == 0x2B {
        text.drop_first()
    } else {
        text
    }
}

/// The number that `text` writes, where it writes one that fits: one or
/// more ASCII digits, a plus sign before them at most.
pub open spec fn written_u32(text: Seq<u8>) -> Option<u32> {
    let digits = unsigned_part(text);
    if digits.len() > 0 && all_digits(digits) && digits_value(digits) <= u32::MAX {
        Some(digits_value(digits) as u32)
    } else {
        None
    }
}

/// The number that the text `text` writes, taken as UTF-8 bytes.
pub open spec fn text_u32(text: Seq<char>) -> Option<u32> {
    written_u32(encode_utf8(text))
}

/// More digits never write a smaller number.
proof fn lemma_digits_grow(digits: Seq<u8>, n: int)
    requires
        all_digits(digits),
        0 <= n <= digits.len(),
    ensures
        0 <= digits_value(digits.take(n)) <= digits_value(digits),
    decreases digits.len() - n,
{
    if n == digits.len() {
        assert(digits.take(n) =~= digits);
        lemma_digits_nonnegative(digits);
    } else {
        lemma_digits_grow(digits, n + 1);
        assert(digits.take(n + 1).drop_last() =~= digits.take(n));
        assert(is_digit(digits[n]));
        assert(digits.take(n + 1).last() == digits[n]);
        lemma_digits_nonnegative(digits.take(n));
    }
}

proof fn lemma_digits_nonnegative(digits: Seq<u8>)
    requires
        all_digits(digits),
    ensures
        0 <= digits_value(digits),
    decreases digits.len(),
{
    if digits.len() > 0 {
        assert(is_digit(digits.last()));
        assert(all_digits(digits.drop_last())) by {
            assert forall|i: int| 0 <= i < digits.drop_last().len() implies is_digit(
                #[trigger] digits.drop_last()[i],
            ) by {
                assert(is_digit(digits[i]));
            }
        }
        lemma_digits_nonnegative(digits.drop_last());
    }
}

/// Reads a number as `str::parse::<u32>` reads it.
pub fn parse_u32(text: &str) -> (number: Option<u32>)
    ensures
        number == text_u32(text@),
{
    let bytes = text.as_bytes();
    let start: usize = if bytes.len() > 0 && bytes[0] == 0x2B {
        1
    } else {
        0
    };
    let ghost digits = unsigned_part(bytes@);
    assert(digits =~= bytes@.skip(start as int));
    if start == bytes.len() {
        return None;
    }
    let mut value: u64 = 0;
    let mut i: usize = start;
    assert(digits.take(0) =~= Seq::empty());
    while i < bytes.len()
        invariant
            start <= i <= bytes.len(),
            start <= 1,
            bytes@ == encode_utf8(text@),
            digits == bytes@.skip(start as int),
            digits == unsigned_part(bytes@),
            digits.len() > 0,
            all_digits(digits.take(i - start)),
            value == digits_value(digits.take(i - start)),
            value <= u32::MAX,
        decreases bytes.len() - i,
    {
        let byte: u8 = bytes[i];
        assert(byte == digits[i - start]);
        if byte < 0x30 || byte > 0x39 {
            assert(!all_digits(digits)) by {
                assert(!is_digit(digits[i - start]));
            }
            return None;
        }
        let ghost longer = digits.take(i - start + 1);
        proof {
            assert(longer.drop_last() =~= digits.take(i - start));
            assert(longer.last() == byte);
            assert forall|k: int| 0 <= k < longer.len() implies is_digit(#[trigger] longer[k]) by {
                if k < i - start {
                    assert(is_digit(digits.take(i - start)[k]));
                }
            }
        }
        value = value * 10 + (byte - 0x30) as u64;
        if value > u32::MAX as u64 {
            proof {
                if all_digits(digits) {
                    lemma_digits_grow(digits, i - start + 1);
                }
            }
            return None;
        }
        i += 1;
    }
    assert(digits.take(digits.len() as int) =~= digits);
    Some(value as u32)
}

/// The ten digits, in order.
pub const DIGITS: &'static str = "0123456789";

/// The character of a digit.
pub open spec fn digit_char(digit: int) -> char {
    DIGITS@[digit]
}

/// A number in decimal digits, without leading zeros.
pub open spec fn decimal(n: nat) -> Seq<char>
    decreases n,
{
    if n < 10 {
        seq![digit_char(n as int)]
    } else {
        decimal(n / 10).push(digit_char((n % 10) as int))
    }
}

/// `count` zeros.
pub open spec fn zeros(count: nat) -> Seq<char> {
    Seq::new(count, |i: int| '0')
}

/// A number in decimal digits, with zeros before it up to the width
/// `width`.
pub open spec fn padded(n: nat, width: nat) -> Seq<char> {
    let digits = decimal(n);
    if digits.len() >= width {
        digits
    } else {
        zeros((width - digits.len()) as nat) + digits
    }
}

/// A number with its sign, in decimal digits, with zeros behind the sign
/// up to the width `width`, the sign counted.
pub open spec fn signed_padded(n: int, width: nat) -> Seq<char> {
    if n < 0 {
        seq!['-'] + padded((-n) as nat, if width > 0 {
            (width - 1) as nat
        } else {
            0
        })
    } else {
        padded(n as nat, width)
    }
}

/// The number in decimal digits.
pub fn decimal_text(n: u64) -> (text: String)
    ensures
        text@ == decimal(n as nat),
        text@.len() <= 20,
    decreases n,
{
    proof {
        reveal_strlit("0123456789");
    }
    assert(DIGITS.is_ascii());
    if n < 10 {
        let digit = DIGITS.substring_ascii(n as usize, n as usize + 1);
        assert(digit@ =~= seq![digit_char(n as int)]);
        digit.to_string()
    } else {
        let mut text = decimal_text(n / 10);
        let last: usize = (n % 10) as usize;
        let digit = DIGITS.substring_ascii(last, last + 1);
        assert(digit@ =~= seq![digit_char(last as int)]);
        proof {
            lemma_decimal_len(n as nat);
        }
        crate::text::append(&mut text, digit);
        assert(text@ =~= decimal(n as nat));
        text
    }
}

proof fn lemma_decimal_len(n: nat)
    requires
        n <= u64::MAX,
    ensures
        1 <= decimal(n).len() <= 20,
        n < 10 ==> decimal(n).len() == 1,
        n >= 10 ==> decimal(n).len() == decimal(n / 10).len() + 1,
{
    reveal_with_fuel(decimal, 21);
}

/// The number in decimal digits, with zeros before it up to `width`.
pub fn padded_text(n: u64, width: usize) -> (text: String)
    ensures
        text@ == padded(n as nat, width as nat),
{
    let digits = decimal_text(n);
    let length = digits.as_str().unicode_len();
    let missing: usize = if width > length {
        width - length
    } else {
        0
    };
    let mut text = String::new();
    assert(text@ =~= zeros(0));
    let mut i: usize = 0;
    while i < missing
        invariant
            i <= missing,
            text@ == zeros(i as nat),
        decreases missing - i,
    {
        crate::text::append(&mut text, "0");
        proof {
            reveal_strlit("0");
            assert(text@ =~= zeros((i + 1) as nat));
        }
        i += 1;
    }
    crate::text::append(&mut text, digits.as_str());
    assert(text@ =~= padded(n as nat, width as nat));
    text
}

/// The number with its sign, with zeros behind the sign up to `width`.
pub fn signed_padded_text(n: i64, width: usize) -> (text: String)
    ensures
        text@ == signed_padded(n as int, width as nat),
{
    if n < 0 {
        let magnitude: u64 = if n == i64::MIN {
            0x8000_0000_0000_0000u64
        } else {
            (-n) as u64
        };
        let rest = padded_text(magnitude, if width > 0 {
            width - 1
        } else {
            0
        });
        let text = crate::text::joined("-", rest.as_str());
        proof {
            reveal_strlit("-");
            assert("-"@ =~= seq!['-']);
        }
        text
    } else {
        padded_text(n as u64, width)
    }
}

} // verus!
