//! Byte arrays and sequences.
use crate::numeral;
use vstd::prelude::*;

verus! {

/// The bytes of a text in UTF-8.
pub open spec fn utf8(text: Seq<char>) -> Seq<u8> {
    vstd::utf8::encode_utf8(text)
}

/// The `N` bytes of `bytes` from position `from`.
pub fn array_at<const N: usize>(bytes: &[u8], from: usize) -> (array: [u8; N])
    requires
        from + N <= bytes@.len(),
    ensures
        array@ == bytes@.subrange(from as int, from + N),
{
    let len: usize = bytes.len();
    let mut array: [u8; N] = [0u8; N];
    let mut i: usize = 0;
    while i < N
        invariant
            i <= N,
            from + N <= len == bytes@.len(),
            array@.len() == N,
            forall|j: int| 0 <= j < i ==> array@[j] == bytes@[from + j],
        decreases N - i,
    {
        array[i] = bytes[from + i];
        i = i + 1;
    }
    assert(array@ =~= bytes@.subrange(from as int, from + N));
    array
}

/// The bytes as an array, if there are `N` of them.
pub fn exact_array<const N: usize>(bytes: &[u8]) -> (array: Option<[u8; N]>)
    ensures
        array is Some <==> bytes@.len() == N,
        array matches Some(a) ==> a@ == bytes@,
{
    if bytes.len() == N {
        let array: [u8; N] = array_at(bytes, 0);
        assert(array@ =~= bytes@);
        Some(array)
    } else {
        None
    }
}

/// A copy of the bytes.
pub fn copy(bytes: &[u8]) -> (copied: Vec<u8>)
    ensures
        copied@ == bytes@,
{
    let mut copied: Vec<u8> = Vec::new();
    append(&mut copied, bytes);
    assert(copied@ =~= bytes@);
    copied
}

/// Appends the bytes.
pub fn append(to: &mut Vec<u8>, bytes: &[u8])
    ensures
        final(to)@ == old(to)@ + bytes@,
{
    to.extend_from_slice(bytes);
    assert(to@ =~= old(to)@ + bytes@);
}

/// The two sequences of bytes are the same.
pub fn same(a: &[u8], b: &[u8]) -> (same: bool)
    ensures
        same == (a@ == b@),
{
    if a.len() != b.len() {
        return false;
    }
    let mut i: usize = 0;
    while i < a.len()
        invariant
            i <= a@.len() == b@.len(),
            forall|j: int| 0 <= j < i ==> a@[j] == b@[j],
        decreases a@.len() - i,
    {
        if a[i] != b[i] {
            return false;
        }
        i = i + 1;
    }
    assert(a@ =~= b@);
    true
}

/// The last `count` bytes of a number, the most significant first.
pub open spec fn big_endian(number: nat, count: nat) -> Seq<u8> {
    numeral::fixed_digits(number, 256, count).map_values(|d: nat| d as u8)
}

/// Appends the last `count` bytes of the number, the most significant first.
pub fn push_big_endian(to: &mut Vec<u8>, number: u64, count: usize)
    ensures
        final(to)@ == old(to)@ + big_endian(number as nat, count as nat),
    decreases count,
{
    if count > 0 {
        push_big_endian(to, number / 256, count - 1);
        to.push((number % 256) as u8);
    }
    assert(to@ =~= old(to)@ + big_endian(number as nat, count as nat));
}

/// Numbers that fit in `count` bytes differ in those bytes.
pub proof fn lemma_big_endian_injective(a: nat, b: nat, count: nat)
    requires
        a < vstd::arithmetic::power::pow(256, count),
        b < vstd::arithmetic::power::pow(256, count),
        big_endian(a, count) == big_endian(b, count),
    ensures
        a == b,
{
    let x = numeral::fixed_digits(a, 256, count);
    let y = numeral::fixed_digits(b, 256, count);
    numeral::lemma_fixed_are_digits(a, 256, count);
    numeral::lemma_fixed_are_digits(b, 256, count);
    numeral::lemma_value_of_fixed(a, 256, count);
    numeral::lemma_value_of_fixed(b, 256, count);
    assert forall|i: int| 0 <= i < x.len() implies x[i] == y[i] by {
        assert(big_endian(a, count)[i] == x[i] as u8);
        assert(big_endian(b, count)[i] == y[i] as u8);
    }
    assert(x =~= y);
}

/// The bytes of a number, read in base 256, are worth the number.
pub proof fn big_endian_is_the_number(number: nat, count: nat)
    requires
        number < vstd::arithmetic::power::pow(256, count),
    ensures
        big_endian(number, count).len() == count,
        numeral::digits_value(big_endian(number, count).map_values(|b: u8| b as nat), 256)
            == number,
{
    let digits = numeral::fixed_digits(number, 256, count);
    numeral::lemma_fixed_are_digits(number, 256, count);
    numeral::lemma_value_of_fixed(number, 256, count);
    assert(big_endian(number, count).map_values(|b: u8| b as nat) =~= digits);
}

/// The bytes of an ASCII text are its characters.
pub proof fn ascii_is_itself(text: Seq<char>)
    requires
        vstd::utf8::is_ascii_chars(text),
    ensures
        utf8(text).len() == text.len(),
        forall|i: int| 0 <= i < text.len() ==> #[trigger] utf8(text)[i] == text[i] as u8,
{
    vstd::utf8::is_ascii_chars_encode_utf8(text);
}

/// The byte at place `i` is that of the power of 256 which belongs there: the most significant
/// comes first.
pub proof fn big_endian_byte(number: nat, count: nat, i: int)
    ensures
        big_endian(number, count).len() == count,
        0 <= i < count ==> big_endian(number, count)[i] == number / (vstd::arithmetic::power::pow(
            256,
            (count - 1 - i) as nat,
        ) as nat) % 256,
{
    numeral::digit_at_its_place(number, 256, count, i);
}

} // verus!
