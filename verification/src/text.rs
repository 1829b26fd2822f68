//! The text form in which byte buffers cross the boundary to a host: `0x`
//! and two hexadecimal digits for each byte.

use crate::codec::decode_fixed;
use crate::error::StealthError;
use vstd::prelude::*;
use vstd::string::StrSliceExecFns;
use vstd::string::StringExecFns;

verus! {

/// The lower-case hexadecimal digit for a value below 16.
pub open spec fn hex_digit(value: u8) -> char {
    match value {
        0 => '0',
        1 => '1',
        2 => '2',
        3 => '3',
        4 => '4',
        5 => '5',
        6 => '6',
        7 => '7',
        8 => '8',
        9 => '9',
        10 => 'a',
        11 => 'b',
        12 => 'c',
        13 => 'd',
        14 => 'e',
        _ => 'f',
    }
}

/// The value of a hexadecimal digit, of either case; `None` for any other
/// character.
pub open spec fn hex_digit_value(c: char) -> Option<u8> {
    match c {
        '0' => Some(0u8),
        '1' => Some(1u8),
        '2' => Some(2u8),
        '3' => Some(3u8),
        '4' => Some(4u8),
        '5' => Some(5u8),
        '6' => Some(6u8),
        '7' => Some(7u8),
        '8' => Some(8u8),
        '9' => Some(9u8),
        'a' | 'A' => Some(10u8),
        'b' | 'B' => Some(11u8),
        'c' | 'C' => Some(12u8),
        'd' | 'D' => Some(13u8),
        'e' | 'E' => Some(14u8),
        'f' | 'F' => Some(15u8),
        _ => None,
    }
}

/// The hexadecimal digits of `bytes`: two for each byte, the upper half
/// first, in lower case.
pub open spec fn hex_text(bytes: Seq<u8>) -> Seq<char> {
    Seq::new(
        2 * bytes.len(),
        |i: int|
            if i % 2 == 0 {
                hex_digit(bytes[i / 2] / 16)
            } else {
                hex_digit(bytes[i / 2] % 16)
            },
    )
}

/// Whether `digits` are an even number of hexadecimal digits.
pub open spec fn is_hex_text(digits: Seq<char>) -> bool {
    &&& digits.len() % 2 == 0
    &&& forall|i: int| 0 <= i < digits.len() ==> hex_digit_value(#[trigger] digits[i]) is Some
}

/// The bytes that hexadecimal digits spell, two digits to a byte.
pub open spec fn hex_bytes(digits: Seq<char>) -> Seq<u8> {
    Seq::new(
        digits.len() / 2,
        |i: int|
            (16 * hex_digit_value(digits[2 * i])->Some_0 + hex_digit_value(
                digits[2 * i + 1],
            )->Some_0) as u8,
    )
}

/// The text form of `bytes`: `0x`, then their hexadecimal digits.
pub open spec fn prefixed_hex(bytes: Seq<u8>) -> Seq<char> {
    seq!['0', 'x'] + hex_text(bytes)
}

/// The bytes that a text spells, or `InvalidHex` where it is not `0x` followed
/// by an even number of hexadecimal digits.
pub open spec fn decoded_text(text: Seq<char>) -> Result<Seq<u8>, StealthError> {
    if text.len() >= 2 && text[0] == '0' && text[1] == 'x' && is_hex_text(
        text.subrange(2, text.len() as int),
    ) {
        Ok(hex_bytes(text.subrange(2, text.len() as int)))
    } else {
        Err(StealthError::InvalidHex)
    }
}

/// The `len` bytes that a text spells; `InvalidLength` where it spells
/// another number of bytes.
pub open spec fn fixed_from_text(text: Seq<char>, len: nat) -> Result<Seq<u8>, StealthError> {
    match decoded_text(text) {
        Ok(bytes) => if bytes.len() == len {
            Ok(bytes)
        } else {
            Err(StealthError::InvalidLength)
        },
        Err(e) => Err(e),
    }
}

/// The error of `hex::decode`, carried from the call to the place that maps
/// it.
#[verifier::external_type_specification]
#[verifier::external_body]
pub struct ExFromHexError(hex::FromHexError);

/// Writes bytes as hexadecimal digits with `hex::encode`.
///
/// Trusted: two lower-case digits for each byte, the upper half first.
#[verifier::external_body]
fn hex_encode(bytes: &[u8]) -> (digits: String)
    ensures
        digits@ == hex_text(bytes@),
{
    hex::encode(bytes)
}

/// Reads hexadecimal digits with `hex::decode`.
///
/// Trusted: an even number of digits of either case gives the bytes that they
/// spell, two digits to a byte; any other text gives an error.
#[verifier::external_body]
fn hex_decode(digits: &str) -> (r: Result<Vec<u8>, hex::FromHexError>)
    ensures
        r is Ok <==> is_hex_text(digits@),
        r matches Ok(bytes) ==> bytes@ == hex_bytes(digits@),
{
    hex::decode(digits)
}

/// The text form of `bytes`: `0x`, then two lower-case hexadecimal digits for
/// each byte.
pub fn hexlify(bytes: &[u8]) -> (text: String)
    ensures
        text@ == prefixed_hex(bytes@),
{
    let mut text = String::from_str("0x");
    proof {
        reveal_strlit("0x");
        assert("0x"@ =~= seq!['0', 'x']);
    }
    let digits = hex_encode(bytes);
    text.append(digits.as_str());
    text
}

/// The bytes that a text spells.
///
/// A text that is not `0x` followed by an even number of hexadecimal digits is
/// refused with `InvalidHex`.
pub fn unhexlify(text: &str) -> (r: Result<Vec<u8>, StealthError>)
    ensures
        match r {
            Ok(bytes) => decoded_text(text@) == Ok::<Seq<u8>, StealthError>(bytes@),
            Err(e) => decoded_text(text@) == Err::<Seq<u8>, StealthError>(e),
        },
{
    let len: usize = text.unicode_len();
    if len < 2 {
        return Err(StealthError::InvalidHex);
    }
    if text.get_char(0) != '0' || text.get_char(1) != 'x' {
        return Err(StealthError::InvalidHex);
    }
    let digits = text.substring_char(2, len);
    match hex_decode(digits) {
        Ok(bytes) => Ok(bytes),
        Err(_) => Err(StealthError::InvalidHex),
    }
}

/// The `N` bytes that a text spells.
///
/// A text that is not `0x` and hexadecimal digits is refused with
/// `InvalidHex`, one that spells another number of bytes with `InvalidLength`.
pub fn read_fixed<const N: usize>(text: &str) -> (r: Result<[u8; N], StealthError>)
    ensures
        match r {
            Ok(array) => fixed_from_text(text@, N as nat) == Ok::<Seq<u8>, StealthError>(array@),
            Err(e) => fixed_from_text(text@, N as nat) == Err::<Seq<u8>, StealthError>(e),
        },
{
    match unhexlify(text) {
        Ok(bytes) => decode_fixed::<N>(bytes.as_slice()),
        Err(e) => Err(e),
    }
}

/// A digit written for a value below 16 reads as that value.
pub proof fn lemma_hex_digit_round_trip(value: u8)
    requires
        value < 16,
    ensures
        hex_digit_value(hex_digit(value)) == Some(value),
{
}

/// Reading undoes writing: the text form of any bytes spells those bytes.
pub proof fn lemma_text_round_trip(bytes: Seq<u8>)
    ensures
        decoded_text(prefixed_hex(bytes)) == Ok::<Seq<u8>, StealthError>(bytes),
{
    let text = prefixed_hex(bytes);
    let digits = text.subrange(2, text.len() as int);
    assert(digits =~= hex_text(bytes));
    assert forall|i: int| 0 <= i < digits.len() implies hex_digit_value(
        #[trigger] digits[i],
    ) is Some by {
        lemma_hex_digit_round_trip(bytes[i / 2] / 16);
        lemma_hex_digit_round_trip(bytes[i / 2] % 16);
    }
    assert forall|i: int| 0 <= i < bytes.len() implies hex_bytes(digits)[i] == bytes[i] by {
        lemma_hex_digit_round_trip(bytes[i] / 16);
        lemma_hex_digit_round_trip(bytes[i] % 16);
        assert(digits[2 * i] == hex_digit(bytes[i] / 16));
        assert(digits[2 * i + 1] == hex_digit(bytes[i] % 16));
    }
    assert(hex_bytes(digits) =~= bytes);
}

} // verus!
