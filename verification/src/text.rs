//! Numbers as text, and text put together from parts.

use vstd::prelude::*;

verus! {

/// The character of one decimal digit.
pub open spec fn digit(value: nat) -> char
    recommends
        value < 10,
{
    ('0' as nat + value) as char
}

/// `value` in decimal, without leading zeros.
pub open spec fn decimal(value: nat) -> Seq<char>
    decreases value,
{
    if value < 10 {
        seq![digit(value)]
    } else {
        decimal(value / 10).push(digit(value % 10))
    }
}

/// The number that a sequence of decimal digits stands for, or `None` where one is no digit.
pub open spec fn digits_value(text: Seq<char>) -> Option<nat>
    decreases text.len(),
{
    if text.len() == 0 {
        Some(0)
    } else {
        let last = text.last();
        match digits_value(text.drop_last()) {
            Some(rest) if '0' <= last && last <= '9' => Some((rest * 10 + (last as nat - '0' as nat)) as nat),
            _ => None,
        }
    }
}

/// The unsigned number that `text` spells: at least one digit, with a plus sign allowed before
/// them.
pub open spec fn unsigned_value(text: Seq<char>) -> Option<nat> {
    if text.len() == 0 {
        None
    } else if text[0] == '+' {
        if text.len() == 1 {
            None
        } else {
            digits_value(text.skip(1))
        }
    } else {
        digits_value(text)
    }
}

/// What reading `text` as an unsigned number of at most `max` gives.
pub open spec fn bounded_value(text: Seq<char>, max: nat) -> Option<nat> {
    match unsigned_value(text) {
        Some(value) if value <= max => Some(value),
        _ => None,
    }
}

/// `u64`'s `to_string`: the number in decimal.
#[verifier::external_body]
pub(crate) fn decimal_string(value: u64) -> (text: String)
    ensures
        text@ == decimal(value as nat),
{
    value.to_string()
}

/// Why a text that spells no 64-bit number is refused.
pub uninterp spec fn number_error(text: Seq<char>) -> Seq<char>;

/// `str::parse::<u64>`: an optional plus sign followed by decimal digits, where the number fits. An error
/// is told in its own words.
#[verifier::external_body]
pub(crate) fn parse_u64(text: &str) -> (value: Result<u64, String>)
    ensures
        match value {
            Ok(v) => bounded_value(text@, u64::MAX as nat) == Some(v as nat),
            Err(reason) => bounded_value(text@, u64::MAX as nat) is None && reason@ == number_error(text@),
        },
{
    text.parse::<u64>().map_err(|error| error.to_string())
}

/// Whether two texts are the same.
pub(crate) fn same_text(a: &str, b: &str) -> (same: bool)
    ensures
        same == (a@ == b@),
{
    a.to_string() == b.to_string()
}

/// The lowercase character of one hexadecimal digit.
pub open spec fn hex_digit(value: nat) -> char
    recommends
        value < 16,
{
    if value < 10 {
        digit(value)
    } else {
        ('a' as nat + value - 10) as char
    }
}

/// `bytes` in lowercase hexadecimal, two digits for each.
pub open spec fn hex(bytes: Seq<u8>) -> Seq<char> {
    Seq::new(
        2 * bytes.len(),
        |i: int|
            if i % 2 == 0 {
                hex_digit(bytes[i / 2] as nat / 16)
            } else {
                hex_digit(bytes[i / 2] as nat % 16)
            },
    )
}

/// The value of a hexadecimal digit of either case.
pub open spec fn hex_value(c: char) -> Option<nat> {
    if '0' <= c && c <= '9' {
        Some((c as nat - '0' as nat) as nat)
    } else if 'a' <= c && c <= 'f' {
        Some((c as nat - 'a' as nat + 10) as nat)
    } else if 'A' <= c && c <= 'F' {
        Some((c as nat - 'A' as nat + 10) as nat)
    } else {
        None
    }
}

/// `text` without a leading `0x` or `0X`.
pub open spec fn without_prefix(text: Seq<char>) -> Seq<char> {
    if text.len() >= 2 && text[0] == '0' && (text[1] == 'x' || text[1] == 'X') {
        text.skip(2)
    } else {
        text
    }
}

/// The `size` bytes that `text` spells in hexadecimal, or `None` where it does not spell that many.
pub open spec fn hex_bytes(text: Seq<char>, size: nat) -> Option<Seq<u8>> {
    let digits = without_prefix(text);
    if digits.len() == 2 * size && forall|i: int| 0 <= i < digits.len() ==> hex_value(#[trigger] digits[i]) is Some {
        Some(
            Seq::new(
                size,
                |i: int| (hex_value(digits[2 * i])->0 * 16 + hex_value(digits[2 * i + 1])->0) as u8,
            ),
        )
    } else {
        None
    }
}

/// `const_hex::encode`: the bytes in lowercase hexadecimal, without a prefix.
#[verifier::external_body]
pub(crate) fn encode_hex(bytes: &[u8]) -> (text: String)
    ensures
        text@ == hex(bytes@),
{
    const_hex::encode(bytes)
}

/// Bytes written in hexadecimal, with the prefix or without, read back as the bytes they were.
pub proof fn hex_reads_back(bytes: Seq<u8>)
    ensures
        hex_bytes(hex(bytes), bytes.len()) == Some(bytes),
        hex_bytes(seq!['0', 'x'] + hex(bytes), bytes.len()) == Some(bytes),
{
    let text = hex(bytes);
    assert forall|i: int| 0 <= i < text.len() implies hex_value(#[trigger] text[i]) is Some by {
        lemma_hex_digit(bytes[i / 2]);
    }
    if text.len() >= 2 {
        lemma_hex_digit(bytes[0]);
        assert(text[1] == hex_digit(bytes[0] as nat % 16));
    }
    assert(without_prefix(text) == text);
    assert((seq!['0', 'x'] + text).skip(2) =~= text);
    let read = hex_bytes(text, bytes.len());
    assert(read is Some);
    assert forall|i: int| 0 <= i < bytes.len() implies read->0[i] == bytes[i] by {
        lemma_hex_digit(bytes[i]);
        assert(text[2 * i] == hex_digit(bytes[i] as nat / 16));
        assert(text[2 * i + 1] == hex_digit(bytes[i] as nat % 16));
    }
    assert(read->0 =~= bytes);
}

proof fn lemma_hex_digit(byte: u8)
    ensures
        hex_value(hex_digit(byte as nat / 16)) == Some(byte as nat / 16),
        hex_value(hex_digit(byte as nat % 16)) == Some(byte as nat % 16),
        hex_digit(byte as nat % 16) != 'x',
        hex_digit(byte as nat % 16) != 'X',
{
}

/// Writing a number and reading it back gives the number.
pub proof fn decimal_reads_back(value: nat)
    ensures
        decimal(value).len() > 0,
        digits_value(decimal(value)) == Some(value),
        unsigned_value(decimal(value)) == Some(value),
{
    lemma_decimal_digits(value);
    assert('+' != decimal(value)[0]);
}

proof fn lemma_decimal_digits(value: nat)
    ensures
        decimal(value).len() > 0,
        '0' <= decimal(value)[0] && decimal(value)[0] <= '9',
        digits_value(decimal(value)) == Some(value),
    decreases value,
{
    reveal_with_fuel(digits_value, 3);
    let text = decimal(value);
    if value >= 10 {
        lemma_decimal_digits(value / 10);
        assert(text.drop_last() =~= decimal(value / 10));
        assert(text[0] == decimal(value / 10)[0]);
    } else {
        assert(text.drop_last() =~= Seq::empty());
    }
}

} // verus!
