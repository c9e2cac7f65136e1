//! Base58 text with the Bitcoin alphabet, as the `bs58` crate reads and writes it.
use crate::numeral;
use vstd::prelude::*;

verus! {

/// The symbol of the digit `digit`: the digits, the capitals and the small letters in their
/// order, without `0`, `I`, `O` and `l`.
pub open spec fn base58_symbol(digit: nat) -> char {
    if digit < 9 {
        ('1' as int + digit) as char
    } else if digit < 17 {
        ('A' as int + (digit - 9)) as char
    } else if digit < 22 {
        ('J' as int + (digit - 17)) as char
    } else if digit < 33 {
        ('P' as int + (digit - 22)) as char
    } else if digit < 44 {
        ('a' as int + (digit - 33)) as char
    } else {
        ('m' as int + (digit - 44)) as char
    }
}

/// The digit that `symbol` stands for, if it is in the alphabet.
pub open spec fn base58_digit(symbol: char) -> Option<nat> {
    if '1' <= symbol <= '9' {
        Some((symbol as int - '1' as int) as nat)
    } else if 'A' <= symbol <= 'H' {
        Some((9 + symbol as int - 'A' as int) as nat)
    } else if 'J' <= symbol <= 'N' {
        Some((17 + symbol as int - 'J' as int) as nat)
    } else if 'P' <= symbol <= 'Z' {
        Some((22 + symbol as int - 'P' as int) as nat)
    } else if 'a' <= symbol <= 'k' {
        Some((33 + symbol as int - 'a' as int) as nat)
    } else if 'm' <= symbol <= 'z' {
        Some((44 + symbol as int - 'm' as int) as nat)
    } else {
        None
    }
}

/// Every character of `text` is in the alphabet.
pub open spec fn is_base58(text: Seq<char>) -> bool {
    forall|i: int| 0 <= i < text.len() ==> base58_digit(#[trigger] text[i]) is Some
}

/// The bytes as digits in base 256.
pub open spec fn byte_digits(bytes: Seq<u8>) -> Seq<nat> {
    bytes.map_values(|b: u8| b as nat)
}

/// Digits below 256 as bytes.
pub open spec fn digit_bytes(digits: Seq<nat>) -> Seq<u8> {
    digits.map_values(|d: nat| d as u8)
}

/// The symbols of digits below 58.
pub open spec fn base58_symbols(digits: Seq<nat>) -> Seq<char> {
    digits.map_values(|d: nat| base58_symbol(d))
}

/// The digits that the symbols of `text` stand for.
pub open spec fn base58_digits(text: Seq<char>) -> Seq<nat> {
    text.map_values(|c: char| base58_digit(c).unwrap())
}

/// The text of `bytes`: a `1` for each leading zero byte, then the number that the bytes write
/// in base 256, in base 58.
pub open spec fn base58_text(bytes: Seq<u8>) -> Seq<char> {
    let digits = byte_digits(bytes);
    base58_symbols(
        numeral::zeros(numeral::leading_zeros(digits)) + numeral::minimal_digits(numeral::digits_value(digits, 256), 58),
    )
}

/// The bytes of `text`: a zero byte for each leading `1`, then the number that the symbols write
/// in base 58, in base 256.
pub open spec fn base58_bytes(text: Seq<char>) -> Seq<u8> {
    let digits = base58_digits(text);
    digit_bytes(
        numeral::zeros(numeral::leading_zeros(digits)) + numeral::minimal_digits(numeral::digits_value(digits, 58), 256),
    )
}

/// What `bs58` says of a text that it refuses.
pub uninterp spec fn base58_complaint(text: Seq<char>) -> Seq<char>;

/// Calls `bs58::encode(..).into_string()`, which writes the bytes as base58 text with its
/// default alphabet. The contract says which text that is.
#[verifier::external_body]
pub(crate) fn base58_encode(bytes: &[u8]) -> (text: String)
    ensures
        text@ == base58_text(bytes@),
{
    bs58::encode(bytes).into_string()
}

/// Calls `bs58::decode(..).into_vec()`, which reads base58 text with its default alphabet. It
/// succeeds exactly on text whose every character is in the alphabet, and then gives the bytes
/// that the contract names; the message of its error depends on the text alone.
#[verifier::external_body]
pub(crate) fn base58_decode(text: &str) -> (result: Result<Vec<u8>, String>)
    ensures
        result is Ok <==> is_base58(text@),
        result matches Ok(bytes) ==> bytes@ == base58_bytes(text@),
        result matches Err(message) ==> message@ == base58_complaint(text@),
{
    bs58::decode(text).into_vec().map_err(|e| e.to_string())
}

proof fn lemma_symbol_digit(digit: nat)
    requires
        digit < 58,
    ensures
        base58_digit(base58_symbol(digit)) == Some(digit),
{
}

/// What is written as base58 is read back: the text of any bytes is base58, and its bytes are
/// the bytes it was made from.
pub proof fn base58_round_trip(bytes: Seq<u8>)
    ensures
        is_base58(base58_text(bytes)),
        base58_bytes(base58_text(bytes)) == bytes,
{
    let digits = byte_digits(bytes);
    let z = numeral::leading_zeros(digits);
    let value = numeral::digits_value(digits, 256);
    let minimal = numeral::minimal_digits(value, 58);
    let all = numeral::zeros(z) + minimal;
    let text = base58_text(bytes);
    numeral::lemma_value_of_minimal(value, 58);
    assert(numeral::all_below(all, 58));
    assert forall|i: int| 0 <= i < text.len() implies base58_digit(#[trigger] text[i]) == Some(
        all[i],
    ) by {
        lemma_symbol_digit(all[i]);
    }
    assert(base58_digits(text) =~= all);
    numeral::lemma_leading_zeros_of_join(z, minimal);
    numeral::lemma_value_ignores_zeros(z, minimal, 58);
    numeral::lemma_split_leading_zeros(digits);
    let tail = digits.skip(z as int);
    numeral::lemma_value_ignores_zeros(z, tail, 256);
    assert(numeral::all_below(tail, 256));
    numeral::lemma_minimal_of_value(tail, 256);
    assert(digit_bytes(digits) =~= bytes);
}

/// What is read as base58 is written again: no two texts have the same bytes, and a text of the
/// alphabet is the one that its bytes are written as.
pub proof fn base58_reads_one_text(text: Seq<char>)
    requires
        is_base58(text),
    ensures
        base58_text(base58_bytes(text)) == text,
{
    let digits = base58_digits(text);
    let z = numeral::leading_zeros(digits);
    let value = numeral::digits_value(digits, 58);
    let minimal = numeral::minimal_digits(value, 256);
    let all = numeral::zeros(z) + minimal;
    let bytes = base58_bytes(text);
    assert forall|i: int| 0 <= i < text.len() implies #[trigger] digits[i] < 58 && base58_symbol(
        digits[i],
    ) == text[i] by {
        assert(base58_digit(text[i]) is Some);
    }
    numeral::lemma_value_of_minimal(value, 256);
    assert(numeral::all_below(all, 256));
    assert(byte_digits(bytes) =~= all);
    numeral::lemma_leading_zeros_of_join(z, minimal);
    numeral::lemma_value_ignores_zeros(z, minimal, 256);
    numeral::lemma_split_leading_zeros(digits);
    let tail = digits.skip(z as int);
    numeral::lemma_value_ignores_zeros(z, tail, 58);
    assert(numeral::all_below(tail, 58));
    numeral::lemma_minimal_of_value(tail, 58);
    assert(base58_symbols(digits) =~= text);
}

/// The symbols of base58, in the order of their digits.
pub proof fn base58_alphabet(digit: nat)
    requires
        digit < 58,
    ensures
        "123456789ABCDEFGHJKLMNPQRSTUVWXYZabcdefghijkmnopqrstuvwxyz"@.len() == 58,
        base58_symbol(digit)
            == "123456789ABCDEFGHJKLMNPQRSTUVWXYZabcdefghijkmnopqrstuvwxyz"@[digit as int],
        base58_digit(
            "123456789ABCDEFGHJKLMNPQRSTUVWXYZabcdefghijkmnopqrstuvwxyz"@[digit as int],
        ) == Some(digit),
{
    reveal_strlit("123456789ABCDEFGHJKLMNPQRSTUVWXYZabcdefghijkmnopqrstuvwxyz");
}

} // verus!
