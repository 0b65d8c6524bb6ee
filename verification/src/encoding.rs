//! What the text and byte encodings used by the tracker mean, as functions on
//! sequences: lower-case hex, big-endian integers, fixed-point decimals and the
//! textual form of an address.

use vstd::arithmetic::power::pow;
use vstd::prelude::*;

verus! {

/// The sixteen lower-case hex digits, by value.
pub open spec fn lower_hex_digits() -> Seq<char> {
    seq!['0', '1', '2', '3', '4', '5', '6', '7', '8', '9', 'a', 'b', 'c', 'd', 'e', 'f']
}

/// Lower-case hex text of a byte string: two digits per byte, high nibble first.
pub open spec fn hex_lower(bytes: Seq<u8>) -> Seq<char> {
    Seq::new(
        2 * bytes.len(),
        |i: int|
            if i % 2 == 0 {
                lower_hex_digits()[bytes[i / 2] as int / 16]
            } else {
                lower_hex_digits()[bytes[i / 2] as int % 16]
            },
    )
}

/// The number a byte string spells when read big-endian. The empty string
/// spells zero.
pub open spec fn be_value(bytes: Seq<u8>) -> nat
    decreases bytes.len(),
{
    if bytes.len() == 0 {
        0
    } else {
        be_value(bytes.drop_last()) * 256 + bytes.last() as nat
    }
}

/// The ten decimal digits, by value.
pub open spec fn decimal_digits() -> Seq<char> {
    seq!['0', '1', '2', '3', '4', '5', '6', '7', '8', '9']
}

/// Decimal text of a number, without leading zeros; zero is `"0"`.
pub open spec fn decimal(n: nat) -> Seq<char>
    decreases n,
{
    if n < 10 {
        seq![decimal_digits()[n as int]]
    } else {
        decimal(n / 10).push(decimal_digits()[(n % 10) as int])
    }
}

/// `digits` with zeros in front up to `width` characters; longer text is left
/// as it is.
pub open spec fn zero_padded(digits: Seq<char>, width: nat) -> Seq<char> {
    if digits.len() >= width {
        digits
    } else {
        Seq::new((width - digits.len()) as nat, |i: int| '0') + digits
    }
}

/// Ten to the power `places`.
pub open spec fn scale(places: nat) -> nat {
    pow(10, places) as nat
}

/// `n` divided by ten to the `places`, as text: the whole part, a point, and
/// the remainder padded with zeros to `places` digits.
pub open spec fn fixed_point(n: nat, places: nat) -> Seq<char> {
    decimal(n / scale(places)) + seq!['.'] + zero_padded(decimal(n % scale(places)), places)
}

/// Characters that may stand between the hex digits of an address and are
/// skipped: space, carriage return, line feed, tab.
pub open spec fn is_hex_blank(c: char) -> bool {
    c == ' ' || c == '\r' || c == '\n' || c == '\t'
}

/// The value of a hex digit of either case; `None` for any other character.
pub open spec fn hex_digit_value(c: char) -> Option<nat> {
    if '0' <= c <= '9' {
        Some((c as u32 - '0' as u32) as nat)
    } else if 'a' <= c <= 'f' {
        Some((c as u32 - 'a' as u32 + 10) as nat)
    } else if 'A' <= c <= 'F' {
        Some((c as u32 - 'A' as u32 + 10) as nat)
    } else {
        None
    }
}

/// `text` without one leading `0x`, if it has one.
pub open spec fn without_0x(text: Seq<char>) -> Seq<char> {
    if text.len() >= 2 && text[0] == '0' && text[1] == 'x' {
        text.skip(2)
    } else {
        text
    }
}

/// The characters of an address text that count: what follows an optional
/// `0x`, blanks dropped.
pub open spec fn address_digits(text: Seq<char>) -> Seq<char> {
    without_0x(text).filter(|c: char| !is_hex_blank(c))
}

/// The twenty bytes that an address text spells: an optional `0x`, then exactly
/// forty hex digits of either case, blanks between them ignored. `None` for
/// every other text.
pub open spec fn address_of_text(text: Seq<char>) -> Option<Seq<u8>> {
    let digits = address_digits(text);
    if digits.len() == 40 && (forall|i: int| 0 <= i < 40 ==> hex_digit_value(#[trigger] digits[i])
        is Some) {
        Some(
            Seq::new(
                20,
                |i: int|
                    (16 * hex_digit_value(digits[2 * i]).unwrap() + hex_digit_value(
                        digits[2 * i + 1],
                    ).unwrap()) as u8,
            ),
        )
    } else {
        None
    }
}

} // verus!
