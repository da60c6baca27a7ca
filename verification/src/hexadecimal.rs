//! Bytes written as hexadecimal digits, two for each byte.

use crate::text::decimal;
use vstd::prelude::*;
use vstd::utf8::{encode_utf8, is_ascii_chars_encode_utf8};

verus! {

/// Why a text is not the hexadecimal form of any bytes.
#[derive(Debug, Clone, Copy, PartialEq, Eq, Structural)]
pub enum HexError {
    /// A byte of the text is no digit. The byte is given as the character with its number.
    InvalidHexCharacter { c: char, index: usize },
    /// The text has an odd number of bytes.
    OddLength,
    /// The text does not fill a container of a fixed size.
    InvalidStringLength,
}

/// Whether a byte is the ASCII code of a hexadecimal digit, of either case.
pub open spec fn is_hex_digit(b: u8) -> bool {
    48 <= b <= 57 || 65 <= b <= 70 || 97 <= b <= 102
}

/// The value of a hexadecimal digit.
pub open spec fn digit_value(b: u8) -> int {
    if 48 <= b <= 57 {
        b - 48
    } else if 65 <= b <= 70 {
        b - 65 + 10
    } else {
        b - 97 + 10
    }
}

/// The hexadecimal digit of a value, in lower case.
pub open spec fn hex_char(d: int) -> char {
    if d < 10 {
        (48 + d) as u8 as char
    } else {
        (97 + d - 10) as u8 as char
    }
}

/// The hexadecimal form of bytes, in lower case, the high digit of each byte first.
pub open spec fn hex_chars(bytes: Seq<u8>) -> Seq<char> {
    Seq::new(
        2 * bytes.len(),
        |i: int|
            if i % 2 == 0 {
                hex_char(bytes[i / 2] as int / 16)
            } else {
                hex_char(bytes[i / 2] as int % 16)
            },
    )
}

/// The bytes whose digits `text` holds.
pub open spec fn paired_digits(text: Seq<u8>) -> Seq<u8> {
    Seq::new(
        text.len() / 2,
        |i: int| (16 * digit_value(text[2 * i]) + digit_value(text[2 * i + 1])) as u8,
    )
}

/// How many bytes stand before the first one that is no hexadecimal digit.
pub open spec fn leading_digits(text: Seq<u8>) -> nat
    decreases text.len(),
{
    if text.len() > 0 && is_hex_digit(text.first()) {
        1 + leading_digits(text.drop_first())
    } else {
        0
    }
}

/// The bytes that a text (given in UTF-8) is the hexadecimal form of, or why there are none: an
/// odd length first, then the first byte that is no digit.
pub open spec fn hex_decoded(text: Seq<u8>) -> Result<Seq<u8>, HexError> {
    let n = leading_digits(text);
    if text.len() % 2 != 0 {
        Err(HexError::OddLength)
    } else if n < text.len() {
        Err(HexError::InvalidHexCharacter { c: text[n as int] as char, index: n as usize })
    } else {
        Ok(paired_digits(text))
    }
}

/// The text in which Rust shows a character for debugging: in single quotes, with escapes where
/// it is not printable.
pub uninterp spec fn char_debug_chars(c: char) -> Seq<char>;

/// What is said of a text that is not hexadecimal.
pub open spec fn hex_error_chars(e: HexError) -> Seq<char> {
    match e {
        HexError::InvalidHexCharacter { c, index } => "Invalid character "@ + char_debug_chars(c)
            + " at position "@ + decimal(index as nat),
        HexError::OddLength => "Odd number of digits"@,
        HexError::InvalidStringLength => "Invalid string length"@,
    }
}

/// Calls `hex::decode`, which reads the UTF-8 bytes of the text in pairs of digits of either
/// case. It fails on an odd number of bytes, and otherwise at the first byte that is no digit.
#[verifier::external_body]
pub(crate) fn decode(text: &str) -> (res: Result<Vec<u8>, HexError>)
    ensures
        match hex_decoded(encode_utf8(text@)) {
            Ok(bytes) => res is Ok && res->Ok_0@ == bytes,
            Err(e) => res == Err::<Vec<u8>, HexError>(e),
        },
{
    match hex::decode(text) {
        Ok(bytes) => Ok(bytes),
        Err(hex::FromHexError::InvalidHexCharacter { c, index }) => {
            Err(HexError::InvalidHexCharacter { c, index })
        },
        Err(hex::FromHexError::OddLength) => Err(HexError::OddLength),
        Err(hex::FromHexError::InvalidStringLength) => Err(HexError::InvalidStringLength),
    }
}

/// Calls `hex::encode`, which writes two lower-case digits for each byte, the high one first.
#[verifier::external_body]
pub(crate) fn encode(bytes: &Vec<u8>) -> (res: String)
    ensures
        res@ == hex_chars(bytes@),
{
    hex::encode(bytes)
}

/// Calls `to_string` of `hex::FromHexError`: one sentence for each kind of error, with the
/// offending character (as Rust's `Debug` shows it) and its position where there is one.
#[verifier::external_body]
pub(crate) fn hex_error_text(e: HexError) -> (res: String)
    ensures
        match e {
            HexError::InvalidHexCharacter { c, index } => res@ == "Invalid character "@
                + char_debug_chars(c) + " at position "@ + decimal(index as nat),
            HexError::OddLength => res@ == "Odd number of digits"@,
            HexError::InvalidStringLength => res@ == "Invalid string length"@,
        },
{
    match e {
        HexError::InvalidHexCharacter { c, index } => {
            hex::FromHexError::InvalidHexCharacter { c, index }.to_string()
        },
        HexError::OddLength => hex::FromHexError::OddLength.to_string(),
        HexError::InvalidStringLength => hex::FromHexError::InvalidStringLength.to_string(),
    }
}

/// A text of which every byte is a digit has no byte before which the digits stop.
proof fn lemma_all_digits(text: Seq<u8>)
    requires
        forall|i: int| 0 <= i < text.len() ==> is_hex_digit(#[trigger] text[i]),
    ensures
        leading_digits(text) == text.len(),
    decreases text.len(),
{
    if text.len() > 0 {
        assert(is_hex_digit(text[0]));
        assert forall|i: int| 0 <= i < text.drop_first().len() implies is_hex_digit(
            #[trigger] text.drop_first()[i],
        ) by {
            assert(is_hex_digit(text[i + 1]));
        }
        lemma_all_digits(text.drop_first());
    }
}

/// Reading back the hexadecimal form of any bytes gives those bytes.
pub proof fn lemma_hex_round_trip(bytes: Seq<u8>)
    ensures
        hex_decoded(encode_utf8(hex_chars(bytes))) == Ok::<Seq<u8>, HexError>(bytes),
{
    let chars = hex_chars(bytes);
    assert forall|i: int| 0 <= i < chars.len() implies {
        &&& (#[trigger] chars[i]) as u32 <= 127
        &&& is_hex_digit(chars[i] as u8)
        &&& digit_value(chars[i] as u8) == (if i % 2 == 0 {
            bytes[i / 2] as int / 16
        } else {
            bytes[i / 2] as int % 16
        })
    } by {}
    is_ascii_chars_encode_utf8(chars);
    let text = encode_utf8(chars);
    assert forall|i: int| 0 <= i < text.len() implies is_hex_digit(#[trigger] text[i]) by {
        assert(text[i] == chars[i] as u8);
    }
    lemma_all_digits(text);
    assert forall|i: int| 0 <= i < bytes.len() implies paired_digits(text)[i] == bytes[i] by {
        assert(text[2 * i] == chars[2 * i] as u8);
        assert(text[2 * i + 1] == chars[2 * i + 1] as u8);
    }
    assert(paired_digits(text) =~= bytes);
}

} // verus!
