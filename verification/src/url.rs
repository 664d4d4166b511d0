//! Texts made safe for an address.

use vstd::prelude::*;
use vstd::string::StrSliceExecFns;
use vstd::utf8::encode_utf8;

use crate::text::append;

verus! {

/// The characters that stand for themselves in an address.
pub const UNRESERVED: &'static str =
    "0123456789ABCDEFGHIJKLMNOPQRSTUVWXYZabcdefghijklmnopqrstuvwxyz-._~";

/// The hexadecimal digits, in upper case.
pub const HEX_DIGITS: &'static str = "0123456789ABCDEF";

/// The bytes that stand for themselves in an address: the ASCII letters
/// and digits, and `-`, `.`, `_`, `~`.
pub open spec fn is_unreserved(byte: u8) -> bool {
    ||| 0x30 <= byte <= 0x39
    ||| 0x41 <= byte <= 0x5A
    ||| 0x61 <= byte <= 0x7A
    ||| byte == 0x2D
    ||| byte == 0x2E
    ||| byte == 0x5F
    ||| byte == 0x7E
}

/// The hexadecimal digit, in upper case, of a number below sixteen.
pub open spec fn hex_digit(nibble: u8) -> char {
    if nibble < 10 {
        (0x30 + nibble) as char
    } else {
        (0x41 + nibble - 10) as char
    }
}

/// One byte as it stands in an address: itself where it is unreserved,
/// else a percent sign and its two hexadecimal digits.
pub open spec fn percent_encoded_byte(byte: u8) -> Seq<char> {
    if is_unreserved(byte) {
        seq![byte as char]
    } else {
        seq!['%', hex_digit(byte / 16), hex_digit(byte % 16)]
    }
}

pub open spec fn percent_encoded_bytes(bytes: Seq<u8>) -> Seq<char>
    decreases bytes.len(),
{
    if bytes.len() == 0 {
        Seq::empty()
    } else {
        percent_encoded_bytes(bytes.drop_last()) + percent_encoded_byte(bytes.last())
    }
}

/// A text as it stands in an address: its UTF-8 bytes, each encoded.
pub open spec fn percent_encoded(text: Seq<char>) -> Seq<char> {
    percent_encoded_bytes(encode_utf8(text))
}

/// The place of an unreserved byte among the unreserved characters.
fn unreserved_place(byte: u8) -> (place: Option<usize>)
    ensures
        match place {
            Some(at) => is_unreserved(byte) && at < UNRESERVED@.len() && UNRESERVED@[at as int]
                == byte as char,
            None => !is_unreserved(byte),
        },
{
    proof {
        reveal_strlit("0123456789ABCDEFGHIJKLMNOPQRSTUVWXYZabcdefghijklmnopqrstuvwxyz-._~");
    }
    if 0x30 <= byte && byte <= 0x39 {
        Some((byte - 0x30) as usize)
    } else if 0x41 <= byte && byte <= 0x5A {
        Some((byte - 0x41) as usize + 10)
    } else if 0x61 <= byte && byte <= 0x7A {
        Some((byte - 0x61) as usize + 36)
    } else if byte == 0x2D {
        Some(62)
    } else if byte == 0x2E {
        Some(63)
    } else if byte == 0x5F {
        Some(64)
    } else if byte == 0x7E {
        Some(65)
    } else {
        None
    }
}

/// Adds the hexadecimal digit of a number below sixteen.
fn append_hex_digit(encoded: &mut String, nibble: u8)
    requires
        nibble < 16,
    ensures
        final(encoded)@ == old(encoded)@.push(hex_digit(nibble)),
{
    proof {
        reveal_strlit("0123456789ABCDEF");
    }
    let at: usize = nibble as usize;
    let digit = HEX_DIGITS.substring_ascii(at, at + 1);
    assert(digit@ =~= seq![hex_digit(nibble)]);
    append(encoded, digit);
    assert(encoded@ =~= old(encoded)@.push(hex_digit(nibble)));
}

/// Adds one byte as it stands in an address.
fn append_encoded_byte(encoded: &mut String, byte: u8)
    ensures
        final(encoded)@ == old(encoded)@ + percent_encoded_byte(byte),
{
    proof {
        reveal_strlit("0123456789ABCDEFGHIJKLMNOPQRSTUVWXYZabcdefghijklmnopqrstuvwxyz-._~");
        reveal_strlit("%");
    }
    match unreserved_place(byte) {
        Some(at) => {
            let itself = UNRESERVED.substring_ascii(at, at + 1);
            assert(itself@ =~= seq![byte as char]);
            append(encoded, itself);
        },
        None => {
            append(encoded, "%");
            append_hex_digit(encoded, byte / 16);
            append_hex_digit(encoded, byte % 16);
            assert(encoded@ =~= old(encoded)@ + seq![
                '%',
                hex_digit(byte / 16),
                hex_digit(byte % 16),
            ]);
        },
    }
}

/// The text as it stands in an address: every byte of its UTF-8 form but
/// the ASCII letters and digits and `-`, `.`, `_`, `~` is written as a
/// percent sign and two hexadecimal digits in upper case.
pub fn url_encode(text: &str) -> (encoded: String)
    ensures
        encoded@ == percent_encoded(text@),
{
    let bytes = text.as_bytes();
    let mut encoded = String::new();
    assert(bytes@.take(0) =~= Seq::empty());
    let mut i: usize = 0;
    while i < bytes.len()
        invariant
            i <= bytes.len(),
            bytes@ == encode_utf8(text@),
            encoded@ == percent_encoded_bytes(bytes@.take(i as int)),
        decreases bytes.len() - i,
    {
        proof {
            assert(bytes@.take(i + 1).drop_last() =~= bytes@.take(i as int));
            assert(bytes@.take(i + 1).last() == bytes@[i as int]);
        }
        append_encoded_byte(&mut encoded, bytes[i]);
        i += 1;
    }
    assert(bytes@.take(bytes.len() as int) =~= bytes@);
    encoded
}

} // verus!
