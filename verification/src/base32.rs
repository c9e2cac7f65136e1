//! Unpadded base32 text, as the `data-encoding` crate reads and writes it.
use crate::base58;
use crate::numeral;
use vstd::arithmetic::div_mod::{
    lemma_div_multiples_vanish, lemma_fundamental_div_mod, lemma_mod_multiples_basic,
};
use vstd::arithmetic::power::{lemma_pow_adds, lemma_pow_multiplies, lemma_pow_positive, pow};
use vstd::prelude::*;

verus! {

/// The symbol of a digit below 32: the capitals, then the digits `2` to `7`.
pub open spec fn base32_symbol(digit: nat) -> char {
    if digit < 26 {
        ('A' as int + digit) as char
    } else {
        ('2' as int + (digit - 26)) as char
    }
}

/// The digit that `symbol` stands for, if it is in the alphabet.
pub open spec fn base32_digit(symbol: char) -> Option<nat> {
    if 'A' <= symbol <= 'Z' {
        Some((symbol as int - 'A' as int) as nat)
    } else if '2' <= symbol <= '7' {
        Some((26 + symbol as int - '2' as int) as nat)
    } else {
        None
    }
}

/// The symbols of digits below 32.
pub open spec fn base32_symbols(digits: Seq<nat>) -> Seq<char> {
    digits.map_values(|d: nat| base32_symbol(d))
}

/// The digits that the symbols of `text` stand for.
pub open spec fn base32_digits(text: Seq<char>) -> Seq<nat> {
    text.map_values(|c: char| base32_digit(c).unwrap())
}

/// How many symbols hold the bits of `bytes` bytes.
pub open spec fn base32_len(bytes: nat) -> nat {
    (8 * bytes + 4) / 5
}

/// The text of `bytes`: their bits, filled up with zero bits to a multiple of five, in groups of
/// five.
pub open spec fn base32_text(bytes: Seq<u8>) -> Seq<char> {
    let len = base32_len(bytes.len());
    let fill = pow(2, (5 * len - 8 * bytes.len()) as nat) as nat;
    let value = numeral::digits_value(base58::byte_digits(bytes), 256) * fill;
    base32_symbols(numeral::fixed_digits(value, 32, len))
}

/// The number that the symbols of `text` write in base 32.
pub open spec fn base32_value(text: Seq<char>) -> nat {
    numeral::digits_value(base32_digits(text), 32)
}

/// How much the bits of `text` that fill no byte of their own are worth at most, plus one.
pub open spec fn base32_fill(text: Seq<char>) -> nat {
    pow(2, (5 * text.len()) % 8) as nat
}

/// `text` is the base32 text of some bytes: no symbol is superfluous, every character is in the
/// alphabet, and the bits after the last whole byte are zero.
pub open spec fn is_base32(text: Seq<char>) -> bool {
    &&& (5 * text.len()) % 8 < 5
    &&& forall|i: int| 0 <= i < text.len() ==> base32_digit(#[trigger] text[i]) is Some
    &&& base32_value(text) % base32_fill(text) == 0
}

/// The bytes of `text`: its bits, five to a symbol, in groups of eight.
pub open spec fn base32_bytes(text: Seq<char>) -> Seq<u8> {
    base58::digit_bytes(
        numeral::fixed_digits(base32_value(text) / base32_fill(text), 256, (5 * text.len()) / 8),
    )
}

/// Calls `data_encoding::BASE32_NOPAD.encode`, which writes the bytes as unpadded base32 text.
/// The contract says which text that is, up to the length from which the crate may panic.
#[verifier::external_body]
pub(crate) fn base32_encode(bytes: &[u8]) -> (text: String)
    requires
        bytes@.len() <= usize::MAX / 512,
    ensures
        text@ == base32_text(bytes@),
{
    data_encoding::BASE32_NOPAD.encode(bytes)
}

/// Calls `data_encoding::BASE32_NOPAD.decode` on the bytes of the text. It succeeds exactly on
/// the base32 text of some bytes, and gives those bytes; its error is left out. The crate may
/// panic on a text that is longer than is admitted here.
#[verifier::external_body]
pub(crate) fn base32_decode(text: &str) -> (result: Option<Vec<u8>>)
    requires
        vstd::utf8::encode_utf8(text@).len() <= usize::MAX / 8,
    ensures
        result is Some <==> is_base32(text@),
        result matches Some(bytes) ==> bytes@ == base32_bytes(text@),
{
    data_encoding::BASE32_NOPAD.decode(text.as_bytes()).ok()
}

/// What is written as base32 is read back: the text of any bytes is base32, has the length that
/// their number gives, and its bytes are the bytes it was made from.
pub proof fn base32_round_trip(bytes: Seq<u8>)
    ensures
        base32_text(bytes).len() == base32_len(bytes.len()),
        is_base32(base32_text(bytes)),
        base32_bytes(base32_text(bytes)) == bytes,
{
    let n = bytes.len();
    let len = base32_len(n);
    let spare = (5 * len - 8 * n) as nat;
    let fill = pow(2, spare) as nat;
    let digits = base58::byte_digits(bytes);
    let number = numeral::digits_value(digits, 256);
    let value = number * fill;
    let symbols = numeral::fixed_digits(value, 32, len);
    let text = base32_text(bytes);
    numeral::lemma_fixed_are_digits(value, 32, len);
    lemma_pow_positive(2, spare);
    assert(spare < 5);
    assert((5 * len) % 8 == spare && (5 * len) / 8 == n) by {
        assert(5 * len == 8 * n + spare);
    }
    assert(value < pow(32, len)) by {
        numeral::lemma_value_bound(digits, 256);
        lemma_pow_multiplies(2, 8, n);
        lemma_pow_multiplies(2, 5, len);
        assert(pow(2, 8) == 256 && pow(2, 5) == 32) by {
            reveal_with_fuel(pow, 9);
        }
        lemma_pow_adds(2, 8 * n, spare);
        assert(number * fill < pow(2, 8 * n) * fill) by (nonlinear_arith)
            requires
                number < pow(2, 8 * n),
                fill > 0,
        ;
        assert(5 * len == 8 * n + spare);
    }
    numeral::lemma_value_of_fixed(value, 32, len);
    assert forall|i: int| 0 <= i < text.len() implies base32_digit(#[trigger] text[i]) == Some(
        symbols[i],
    ) by {
        assert(symbols[i] < 32);
    }
    assert(base32_digits(text) =~= symbols);
    assert(base32_fill(text) == fill);
    lemma_mod_multiples_basic(number as int, fill as int);
    lemma_div_multiples_vanish(number as int, fill as int);
    assert(value / fill == number) by {
        assert(value == fill * number) by (nonlinear_arith)
            requires
                value == number * fill,
        ;
    }
    assert(numeral::all_below(digits, 256));
    numeral::lemma_fixed_of_value(digits, 256);
    assert(base58::digit_bytes(digits) =~= bytes);
}

/// How many bytes a text has.
pub proof fn lemma_bytes_length(text: Seq<char>)
    ensures
        base32_bytes(text).len() == (5 * text.len()) / 8,
{
    numeral::lemma_fixed_are_digits(
        base32_value(text) / base32_fill(text),
        256,
        (5 * text.len()) / 8,
    );
}

/// What is read as base32 is written again: a base32 text is the one that its bytes are written
/// as.
pub proof fn base32_reads_one_text(text: Seq<char>)
    requires
        is_base32(text),
    ensures
        base32_text(base32_bytes(text)) == text,
{
    let len = text.len();
    let n = (5 * len) / 8;
    let spare = (5 * len) % 8;
    let fill = base32_fill(text);
    let digits = base32_digits(text);
    let value = base32_value(text);
    let number = value / fill;
    let bytes = base32_bytes(text);
    assert(5 * len == 8 * n + spare);
    assert(base32_len(n) == len);
    lemma_pow_positive(2, spare);
    assert forall|i: int| 0 <= i < len implies #[trigger] digits[i] < 32 && base32_symbol(digits[i])
        == text[i] by {
        assert(base32_digit(text[i]) is Some);
    }
    assert(numeral::all_below(digits, 32));
    lemma_bytes_length(text);
    lemma_fundamental_div_mod(value as int, fill as int);
    assert(value == number * fill) by (nonlinear_arith)
        requires
            value == fill * number,
    ;
    assert(number < pow(256, n)) by {
        numeral::lemma_value_bound(digits, 32);
        lemma_pow_multiplies(2, 8, n);
        lemma_pow_multiplies(2, 5, len);
        assert(pow(2, 8) == 256 && pow(2, 5) == 32) by {
            reveal_with_fuel(pow, 9);
        }
        lemma_pow_adds(2, 8 * n, spare);
        let p = pow(2, 8 * n);
        assert(number < p) by (nonlinear_arith)
            requires
                number * fill < p * fill,
                fill > 0,
        ;
    }
    numeral::lemma_fixed_are_digits(number, 256, n);
    numeral::lemma_value_of_fixed(number, 256, n);
    assert(base58::byte_digits(bytes) =~= numeral::fixed_digits(number, 256, n));
    numeral::lemma_fixed_of_value(digits, 32);
    assert(base32_symbols(digits) =~= text);
}

/// The symbols of base32, in the order of their digits.
pub proof fn base32_alphabet(digit: nat)
    requires
        digit < 32,
    ensures
        "ABCDEFGHIJKLMNOPQRSTUVWXYZ234567"@.len() == 32,
        base32_symbol(digit) == "ABCDEFGHIJKLMNOPQRSTUVWXYZ234567"@[digit as int],
        base32_digit("ABCDEFGHIJKLMNOPQRSTUVWXYZ234567"@[digit as int]) == Some(digit),
{
    reveal_strlit("ABCDEFGHIJKLMNOPQRSTUVWXYZ234567");
}

} // verus!
