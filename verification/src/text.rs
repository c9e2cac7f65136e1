//! Text: characters, pieces between separators, and numbers written out.
use crate::numeral;
use vstd::prelude::*;

verus! {

/// `String::push` appends the character.
pub assume_specification[ String::push ](s: &mut String, c: char)
    ensures
        final(s)@ == old(s)@.push(c),
;

/// A character beyond ASCII has the Unicode property White_Space.
pub uninterp spec fn wide_white_space(c: char) -> bool;

/// The character has the Unicode property White_Space. Among the ASCII characters the space and
/// the controls from tab to carriage return have it.
pub open spec fn white_space(c: char) -> bool {
    if (c as int) < 128 {
        c == ' ' || 9 <= c as int <= 13
    } else {
        wide_white_space(c)
    }
}

/// `char::is_whitespace` tests the Unicode property White_Space.
pub assume_specification[ char::is_whitespace ](c: char) -> (b: bool)
    ensures
        (c as int) < 128 ==> b == (c == ' ' || 9 <= c as int <= 13),
        (c as int) >= 128 ==> b == wide_white_space(c),
;

/// The characters of `text`.
pub fn chars_of(text: &str) -> (chars: Vec<char>)
    ensures
        chars@ == text@,
{
    let mut chars: Vec<char> = Vec::new();
    for c in iter: text.chars()
        invariant
            chars@ == iter.seq().take(iter.index() as int),
            iter.seq() == text@,
    {
        chars.push(c);
    }
    chars
}

/// The text of the characters from `from` up to `to`.
pub fn text_of(chars: &Vec<char>, from: usize, to: usize) -> (text: String)
    requires
        from <= to <= chars@.len(),
    ensures
        text@ == chars@.subrange(from as int, to as int),
{
    let mut text = String::new();
    let mut i: usize = from;
    while i < to
        invariant
            from <= i <= to <= chars@.len(),
            text@ == chars@.subrange(from as int, i as int),
        decreases to - i,
    {
        text.push(chars[i]);
        i = i + 1;
    }
    text
}

/// The two texts are the same.
pub fn same_text(a: &str, b: &str) -> (same: bool)
    ensures
        same == (a@ == b@),
{
    a.to_owned() == b.to_owned()
}

/// `text` starts with `prefix`.
pub open spec fn has_prefix(text: Seq<char>, prefix: Seq<char>) -> bool {
    prefix.len() <= text.len() && text.take(prefix.len() as int) == prefix
}

/// What follows `prefix` in `text`, if it starts with it.
pub fn without_prefix(text: &str, prefix: &str) -> (rest: Option<String>)
    ensures
        rest is Some <==> has_prefix(text@, prefix@),
        rest matches Some(r) ==> r@ == text@.skip(prefix@.len() as int),
{
    let chars = chars_of(text);
    let start = chars_of(prefix);
    if chars.len() < start.len() {
        return None;
    }
    let head = text_of(&chars, 0, start.len());
    assert(head@ =~= text@.take(prefix@.len() as int));
    if same_text(&head, prefix) {
        let rest = text_of(&chars, start.len(), chars.len());
        assert(rest@ =~= text@.skip(prefix@.len() as int));
        Some(rest)
    } else {
        None
    }
}

/// The pieces of `text` between the separators, the empty ones too.
pub open spec fn pieces(text: Seq<char>, separator: char) -> Seq<Seq<char>>
    decreases text.len(),
{
    if text.len() == 0 {
        seq![Seq::empty()]
    } else {
        let before = pieces(text.drop_last(), separator);
        if text.last() == separator {
            before.push(Seq::empty())
        } else {
            before.update(before.len() - 1, before.last().push(text.last()))
        }
    }
}

/// What each of the texts holds.
pub open spec fn contents(texts: Seq<String>) -> Seq<Seq<char>> {
    texts.map_values(|t: String| t@)
}

/// There is always a piece.
pub proof fn lemma_some_piece(text: Seq<char>, separator: char)
    ensures
        pieces(text, separator).len() >= 1,
    decreases text.len(),
{
    if text.len() > 0 {
        lemma_some_piece(text.drop_last(), separator);
    }
}

/// One more character starts a new piece or goes on with the last one.
pub proof fn lemma_pieces_push(text: Seq<char>, c: char, separator: char)
    ensures
        pieces(text.push(c), separator) == if c == separator {
            pieces(text, separator).push(Seq::empty())
        } else {
            pieces(text, separator).update(
                pieces(text, separator).len() - 1,
                pieces(text, separator).last().push(c),
            )
        },
{
    assert(text.push(c).drop_last() =~= text);
}

/// Text without a separator is a single piece.
pub proof fn lemma_single_piece(text: Seq<char>, separator: char)
    requires
        !text.contains(separator),
    ensures
        pieces(text, separator) == seq![text],
    decreases text.len(),
{
    if text.len() > 0 {
        let rest = text.drop_last();
        assert(!rest.contains(separator)) by {
            if rest.contains(separator) {
                let i = choose|i: int| 0 <= i < rest.len() && rest[i] == separator;
                assert(text[i] == separator);
            }
        }
        lemma_single_piece(rest, separator);
        assert(rest.push(text.last()) =~= text);
        assert(pieces(text, separator) =~= seq![text]);
    } else {
        assert(text =~= Seq::empty());
    }
}

/// A piece, a separator and more text: the pieces are that piece and those of the text.
pub proof fn lemma_first_piece(first: Seq<char>, separator: char, rest: Seq<char>)
    requires
        !first.contains(separator),
    ensures
        pieces(first.push(separator) + rest, separator) == seq![first] + pieces(rest, separator),
    decreases rest.len(),
{
    let text = first.push(separator) + rest;
    lemma_some_piece(rest, separator);
    if rest.len() == 0 {
        assert(text.drop_last() =~= first);
        lemma_single_piece(first, separator);
        assert(pieces(text, separator) =~= seq![first] + pieces(rest, separator));
    } else {
        assert(text.drop_last() =~= first.push(separator) + rest.drop_last());
        lemma_some_piece(rest.drop_last(), separator);
        lemma_first_piece(first, separator, rest.drop_last());
        assert(pieces(text, separator) =~= seq![first] + pieces(rest, separator));
    }
}

/// The pieces of `text` between the separators.
pub fn split(text: &str, separator: char) -> (parts: Vec<String>)
    ensures
        contents(parts@) == pieces(text@, separator),
{
    let chars = chars_of(text);
    let mut parts: Vec<String> = Vec::new();
    let mut part = String::new();
    let mut i: usize = 0;
    assert(chars@.take(0) =~= Seq::empty());
    while i < chars.len()
        invariant
            i <= chars@.len(),
            contents(parts@).push(part@) == pieces(chars@.take(i as int), separator),
        decreases chars@.len() - i,
    {
        let c = chars[i];
        let ghost before = contents(parts@).push(part@);
        assert(chars@.take(i + 1).drop_last() =~= chars@.take(i as int));
        if c == separator {
            parts.push(part);
            part = String::new();
            assert(contents(parts@) =~= before);
        } else {
            part.push(c);
            assert(contents(parts@).push(part@) =~= before.update(
                before.len() - 1,
                before.last().push(c),
            ));
        }
        i = i + 1;
    }
    assert(chars@.take(i as int) =~= text@);
    let ghost all = contents(parts@).push(part@);
    parts.push(part);
    assert(contents(parts@) =~= all);
    parts
}

/// The symbol of a digit below 16.
pub open spec fn digit_symbol(digit: nat) -> char {
    if digit < 10 {
        ('0' as int + digit) as char
    } else {
        ('a' as int + (digit - 10)) as char
    }
}

/// The symbols of digits below 16.
pub open spec fn digit_symbols(digits: Seq<nat>) -> Seq<char> {
    digits.map_values(|d: nat| digit_symbol(d))
}

/// The number in base 10 or 16 without leading zeros; zero is `0`.
pub open spec fn number_text(number: nat, base: nat) -> Seq<char> {
    if number == 0 {
        seq!['0']
    } else {
        digit_symbols(numeral::minimal_digits(number, base))
    }
}

/// The number in base 10.
pub open spec fn decimal_text(number: nat) -> Seq<char> {
    number_text(number, 10)
}

fn push_digits(text: &mut String, number: u64, base: u64)
    requires
        2 <= base <= 16,
    ensures
        final(text)@ == old(text)@ + digit_symbols(
            numeral::minimal_digits(number as nat, base as nat),
        ),
    decreases number,
{
    if number > 0 {
        let digit: u8 = (number % base) as u8;
        assert(number / base < number) by (nonlinear_arith)
            requires
                number > 0,
                base >= 2,
        ;
        push_digits(text, number / base, base);
        let symbol = if digit < 10 {
            (48 + digit) as char
        } else {
            (87 + digit) as char
        };
        text.push(symbol);
    }
    assert(text@ =~= old(text)@ + digit_symbols(
        numeral::minimal_digits(number as nat, base as nat),
    ));
}

/// Appends the number in base 10 or 16, without leading zeros.
pub fn push_number(text: &mut String, number: u64, base: u64)
    requires
        2 <= base <= 16,
    ensures
        final(text)@ == old(text)@ + number_text(number as nat, base as nat),
{
    if number == 0 {
        text.push('0');
        assert(text@ =~= old(text)@ + seq!['0']);
    } else {
        push_digits(text, number, base);
    }
}

/// `text` is one or more decimal digits, perhaps after a plus sign.
pub open spec fn is_unsigned(text: Seq<char>) -> bool {
    let digits = unsigned_digits(text);
    digits.len() > 0 && forall|i: int| 0 <= i < digits.len() ==> '0' <= #[trigger] digits[i] <= '9'
}

/// `text` without the plus sign that it may start with.
pub open spec fn unsigned_digits(text: Seq<char>) -> Seq<char> {
    if text.len() > 0 && text[0] == '+' {
        text.skip(1)
    } else {
        text
    }
}

/// The number that the decimal digits of `text` write.
pub open spec fn unsigned_value(text: Seq<char>) -> nat {
    numeral::digits_value(
        unsigned_digits(text).map_values(|c: char| (c as int - '0' as int) as nat),
        10,
    )
}

/// What the standard library says of a text that is no `u64`.
pub uninterp spec fn u64_complaint(text: Seq<char>) -> Seq<char>;

/// What the standard library says of a text that is no `u32`.
pub uninterp spec fn u32_complaint(text: Seq<char>) -> Seq<char>;

/// Calls `str::parse::<u64>`, which reads an optional plus sign and one or more decimal digits
/// whose number fits. The message of its error depends on the text alone.
#[verifier::external_body]
pub(crate) fn parse_u64(text: &str) -> (result: Result<u64, String>)
    ensures
        result is Ok <==> (is_unsigned(text@) && unsigned_value(text@) <= u64::MAX),
        result matches Ok(number) ==> number == unsigned_value(text@),
        result matches Err(message) ==> message@ == u64_complaint(text@),
{
    text.parse::<u64>().map_err(|e| e.to_string())
}

/// Calls `str::parse::<u32>`, which reads an optional plus sign and one or more decimal digits
/// whose number fits. The message of its error depends on the text alone.
#[verifier::external_body]
pub(crate) fn parse_u32(text: &str) -> (result: Result<u32, String>)
    ensures
        result is Ok <==> (is_unsigned(text@) && unsigned_value(text@) <= u32::MAX),
        result matches Ok(number) ==> number == unsigned_value(text@),
        result matches Err(message) ==> message@ == u32_complaint(text@),
{
    text.parse::<u32>().map_err(|e| e.to_string())
}

/// A number written in base 10 holds only digits and is read back.
pub proof fn lemma_decimal_round_trip(number: nat)
    ensures
        is_unsigned(decimal_text(number)),
        unsigned_value(decimal_text(number)) == number,
        forall|c: char| #[trigger] decimal_text(number).contains(c) ==> '0' <= c <= '9',
{
    let text = decimal_text(number);
    let digits = numeral::minimal_digits(number, 10);
    numeral::lemma_value_of_minimal(number, 10);
    assert forall|i: int| 0 <= i < text.len() implies '0' <= #[trigger] text[i] <= '9' by {
        if number > 0 {
            assert(digits[i] < 10);
        }
    }
    if number > 0 {
        assert(digits.len() > 0);
        assert(text.map_values(|c: char| (c as int - '0' as int) as nat) =~= digits) by {
            assert forall|i: int| 0 <= i < digits.len() implies #[trigger] digits[i] < 10 by {}
        }
    } else {
        assert(text.map_values(|c: char| (c as int - '0' as int) as nat) =~= seq![0nat]);
        assert(seq![0nat].drop_last() =~= Seq::empty());
        reveal_with_fuel(numeral::digits_value, 2);
    }
    assert(text.len() > 0 && text[0] != '+');
}

/// The capital of a small ASCII letter; every other character stays as it is.
pub open spec fn ascii_capital(c: char) -> char {
    if 'a' <= c <= 'z' {
        (c as int - 32) as char
    } else {
        c
    }
}

/// The capital of a small ASCII letter; every other character stays as it is.
pub fn to_ascii_capital(c: char) -> (capital: char)
    ensures
        capital == ascii_capital(c),
{
    if 'a' <= c && c <= 'z' {
        ((c as u8) - 32) as char
    } else {
        c
    }
}

/// The text in Unicode upper case.
pub uninterp spec fn upper_case(text: Seq<char>) -> Seq<char>;

/// Calls `str::to_uppercase`, which maps each character to its Unicode upper case; an ASCII
/// character has its ASCII capital.
#[verifier::external_body]
pub(crate) fn to_upper_case(text: &str) -> (upper: String)
    ensures
        upper@ == upper_case(text@),
        vstd::utf8::is_ascii_chars(text@) ==> upper@ == text@.map_values(|c: char| ascii_capital(c)),
{
    text.to_uppercase()
}

/// The position of the first character that is not white space, or the length of the text.
pub open spec fn first_ink(text: Seq<char>) -> nat
    decreases text.len(),
{
    if text.len() > 0 && white_space(text[0]) {
        1 + first_ink(text.drop_first())
    } else {
        0
    }
}

/// The position after the last character that is not white space.
pub open spec fn last_ink(text: Seq<char>) -> nat
    decreases text.len(),
{
    if text.len() > 0 && white_space(text.last()) {
        last_ink(text.drop_last())
    } else {
        text.len()
    }
}

/// The text without the white space at its end and at its start.
pub open spec fn trimmed(text: Seq<char>) -> Seq<char> {
    let kept = text.take(last_ink(text) as int);
    kept.skip(first_ink(kept) as int)
}

/// The text without the white space around it.
pub fn trim(text: &str) -> (inner: String)
    ensures
        inner@ == trimmed(text@),
{
    let chars = chars_of(text);
    let mut end: usize = chars.len();
    assert(chars@.take(end as int) =~= text@);
    while end > 0 && chars[end - 1].is_whitespace()
        invariant
            end <= chars@.len(),
            last_ink(chars@.take(end as int)) == last_ink(text@),
        decreases end,
    {
        assert(chars@.take(end as int).drop_last() =~= chars@.take(end - 1));
        end = end - 1;
    }
    let ghost kept = chars@.take(end as int);
    assert(last_ink(text@) == end);
    let mut start: usize = 0;
    assert(kept.skip(0) =~= kept);
    while start < end && chars[start].is_whitespace()
        invariant
            start <= end <= chars@.len(),
            kept == chars@.take(end as int),
            first_ink(kept) == start + first_ink(kept.skip(start as int)),
        decreases end - start,
    {
        assert(kept.skip(start as int).drop_first() =~= kept.skip(start + 1));
        start = start + 1;
    }
    assert(chars@.subrange(start as int, end as int) =~= kept.skip(start as int));
    text_of(&chars, start, end)
}

/// The pieces with the separator between each two of them.
pub open spec fn joined(parts: Seq<Seq<char>>, separator: char) -> Seq<char>
    decreases parts.len(),
{
    if parts.len() == 0 {
        Seq::empty()
    } else if parts.len() == 1 {
        parts[0]
    } else {
        joined(parts.drop_last(), separator).push(separator) + parts.last()
    }
}

/// The pieces of a text hold no separator, and joined they are the text again.
pub proof fn pieces_make_the_text(text: Seq<char>, separator: char)
    ensures
        joined(pieces(text, separator), separator) == text,
        forall|i: int|
            0 <= i < pieces(text, separator).len() ==> !(#[trigger] pieces(
                text,
                separator,
            )[i]).contains(separator),
    decreases text.len(),
{
    let parts = pieces(text, separator);
    if text.len() == 0 {
        assert(joined(parts, separator) =~= text);
    } else {
        let fewer = text.drop_last();
        let c = text.last();
        let before = pieces(fewer, separator);
        pieces_make_the_text(fewer, separator);
        lemma_some_piece(fewer, separator);
        assert(fewer.push(c) =~= text);
        if c == separator {
            assert(parts.drop_last() =~= before);
            assert(joined(parts, separator) =~= joined(before, separator).push(c));
        } else {
            assert(parts.drop_last() =~= before.drop_last());
            assert(parts.last() == before.last().push(c));
            assert(joined(parts, separator) =~= joined(before, separator).push(c));
            assert(!before.last().push(c).contains(separator)) by {
                let last = before.last();
                if last.push(c).contains(separator) {
                    let i = choose|i: int|
                        0 <= i < last.push(c).len() && last.push(c)[i] == separator;
                    assert(last[i] == separator);
                    assert(before[before.len() - 1].contains(separator));
                }
            }
        }
        assert forall|i: int| 0 <= i < parts.len() implies !(#[trigger] parts[i]).contains(
            separator,
        ) by {
            if i < before.len() - 1 {
                assert(parts[i] == before[i]);
            } else if c == separator && i < before.len() {
                assert(parts[i] == before[i]);
            }
        }
    }
}

/// A text starts with a prefix exactly if it is the prefix and something after it.
pub proof fn prefix_and_rest(text: Seq<char>, prefix: Seq<char>, rest: Seq<char>)
    ensures
        has_prefix(prefix + rest, prefix),
        (prefix + rest).skip(prefix.len() as int) == rest,
        has_prefix(text, prefix) <==> text == prefix + text.skip(prefix.len() as int)
            && prefix.len() <= text.len(),
{
    assert((prefix + rest).take(prefix.len() as int) =~= prefix);
    assert((prefix + rest).skip(prefix.len() as int) =~= rest);
    if has_prefix(text, prefix) {
        assert(text =~= prefix + text.skip(prefix.len() as int));
    }
    if text == prefix + text.skip(prefix.len() as int) && prefix.len() <= text.len() {
        assert(text.take(prefix.len() as int) =~= prefix);
    }
}

/// White space is what Unicode says it is; of the ASCII characters, the space and the controls
/// from tab to carriage return.
pub proof fn white_space_is_unicode(c: char)
    ensures
        (c as int) < 128 ==> (white_space(c) <==> c == ' ' || 9 <= c as int <= 13),
        (c as int) >= 128 ==> white_space(c) == wide_white_space(c),
{
}

/// Trimming takes away white space only, at both ends only, and all of it.
pub proof fn trimmed_is_the_middle(text: Seq<char>) -> (bounds: (int, int))
    ensures
        0 <= bounds.0 <= bounds.1 <= text.len(),
        trimmed(text) == text.subrange(bounds.0, bounds.1),
        forall|i: int| 0 <= i < bounds.0 ==> white_space(#[trigger] text[i]),
        forall|i: int| bounds.1 <= i < text.len() ==> white_space(#[trigger] text[i]),
        trimmed(text).len() > 0 ==> !white_space(trimmed(text)[0]) && !white_space(
            trimmed(text).last(),
        ),
{
    let to = last_ink(text) as int;
    lemma_last_ink(text);
    let kept = text.take(to);
    let from = first_ink(kept) as int;
    lemma_first_ink(kept);
    assert(trimmed(text) =~= text.subrange(from, to));
    assert forall|i: int| 0 <= i < from implies white_space(#[trigger] text[i]) by {
        assert(kept[i] == text[i]);
    }
    (from, to)
}

proof fn lemma_last_ink(text: Seq<char>)
    ensures
        last_ink(text) <= text.len(),
        forall|i: int| last_ink(text) <= i < text.len() ==> white_space(#[trigger] text[i]),
        last_ink(text) > 0 ==> !white_space(text[last_ink(text) - 1]),
    decreases text.len(),
{
    if text.len() > 0 && white_space(text.last()) {
        let fewer = text.drop_last();
        lemma_last_ink(fewer);
        assert forall|i: int| last_ink(text) <= i < text.len() implies white_space(
            #[trigger] text[i],
        ) by {
            if i < fewer.len() {
                assert(fewer[i] == text[i]);
            }
        }
    }
}

proof fn lemma_first_ink(text: Seq<char>)
    ensures
        first_ink(text) <= text.len(),
        forall|i: int| 0 <= i < first_ink(text) ==> white_space(#[trigger] text[i]),
        first_ink(text) < text.len() ==> !white_space(text[first_ink(text) as int]),
    decreases text.len(),
{
    if text.len() > 0 && white_space(text[0]) {
        let fewer = text.drop_first();
        lemma_first_ink(fewer);
        assert forall|i: int| 0 <= i < first_ink(text) implies white_space(#[trigger] text[i]) by {
            if i > 0 {
                assert(fewer[i - 1] == text[i]);
            }
        }
    }
}

/// The capital of the small letter at a place of the alphabet is the capital letter at that place;
/// no other character changes.
pub proof fn capitals_keep_their_place(c: char, place: nat)
    requires
        place < 26,
    ensures
        c as int == 'a' as int + place ==> ascii_capital(c) as int == 'A' as int + place,
        !('a' <= c <= 'z') ==> ascii_capital(c) == c,
{
}

/// What a digit's symbol is worth.
pub open spec fn symbol_value(c: char) -> nat {
    if '0' <= c <= '9' {
        (c as int - '0' as int) as nat
    } else {
        (10 + c as int - 'a' as int) as nat
    }
}

/// A number that is written out is worth the number, and starts with zero only if it is zero.
pub proof fn written_number_is_the_number(number: nat, base: nat)
    requires
        2 <= base <= 16,
    ensures
        number_text(number, base).len() > 0,
        numeral::digits_value(
            number_text(number, base).map_values(|c: char| symbol_value(c)),
            base,
        ) == number,
        number_text(number, base)[0] == '0' ==> number == 0 && number_text(number, base).len() == 1,
{
    let text = number_text(number, base);
    let digits = numeral::minimal_digits(number, base);
    numeral::lemma_value_of_minimal(number, base);
    if number > 0 {
        assert forall|i: int| 0 <= i < digits.len() implies symbol_value(#[trigger] text[i])
            == digits[i] by {
            assert(digits[i] < base);
        }
        assert(text.map_values(|c: char| symbol_value(c)) =~= digits);
    } else {
        assert(text.map_values(|c: char| symbol_value(c)) =~= seq![0nat]);
        assert(0 * base == 0) by (nonlinear_arith);
        assert(seq![0nat].drop_last() =~= Seq::empty());
        reveal_with_fuel(numeral::digits_value, 2);
    }
}

/// A text that is a number is its digits, perhaps after a plus sign, and is worth what they are
/// worth.
pub proof fn number_is_its_digits(digits: Seq<char>)
    requires
        digits.len() > 0,
        forall|i: int| 0 <= i < digits.len() ==> '0' <= #[trigger] digits[i] <= '9',
    ensures
        is_unsigned(digits),
        is_unsigned(seq!['+'] + digits),
        unsigned_value(digits) == numeral::digits_value(
            digits.map_values(|c: char| symbol_value(c)),
            10,
        ),
        unsigned_value(seq!['+'] + digits) == unsigned_value(digits),
{
    assert((seq!['+'] + digits).skip(1) =~= digits);
    assert(digits[0] != '+');
    assert(digits.map_values(|c: char| (c as int - '0' as int) as nat) =~= digits.map_values(
        |c: char| symbol_value(c),
    ));
}

/// White space before and after a text does not change what is left of it.
pub proof fn outer_white_space_is_trimmed(before: Seq<char>, text: Seq<char>, after: Seq<char>)
    requires
        forall|i: int| 0 <= i < before.len() ==> white_space(#[trigger] before[i]),
        forall|i: int| 0 <= i < after.len() ==> white_space(#[trigger] after[i]),
    ensures
        trimmed(before + text + after) == trimmed(text),
{
    let whole = before + text + after;
    let inner = trimmed_is_the_middle(text);
    let outer = trimmed_is_the_middle(whole);
    let b = before.len() as int;
    assert forall|i: int| 0 <= i < whole.len() && !(b + inner.0 <= i < b + inner.1) implies
        white_space(#[trigger] whole[i]) by {
        if i < b {
            assert(before[i] == whole[i]);
        } else if i < b + text.len() {
            assert(text[i - b] == whole[i]);
        } else {
            assert(after[i - b - text.len()] == whole[i]);
        }
    }
    if inner.0 < inner.1 {
        assert(!white_space(text[inner.0])) by {
            assert(trimmed(text)[0] == text[inner.0]);
        }
        assert(!white_space(text[inner.1 - 1])) by {
            assert(trimmed(text).last() == text[inner.1 - 1]);
        }
        assert(whole[b + inner.0] == text[inner.0]);
        assert(whole[b + inner.1 - 1] == text[inner.1 - 1]);
        assert(outer.0 <= b + inner.0 && b + inner.1 <= outer.1);
        assert(trimmed(whole)[0] == whole[outer.0]);
        assert(trimmed(whole).last() == whole[outer.1 - 1]);
        assert(outer.0 == b + inner.0 && outer.1 == b + inner.1);
        assert(trimmed(whole) =~= trimmed(text));
    } else {
        if outer.0 < outer.1 {
            assert(trimmed(whole)[0] == whole[outer.0]);
        }
        assert(trimmed(whole) =~= trimmed(text));
    }
}

/// The symbol at place `i` of a number that is written out is worth the digit that belongs there:
/// the most significant comes first.
pub proof fn written_digit(number: nat, base: nat, i: int)
    requires
        2 <= base <= 16,
        number > 0,
    ensures
        0 <= i < number_text(number, base).len() ==> symbol_value(number_text(number, base)[i])
            == number / (vstd::arithmetic::power::pow(
            base as int,
            (number_text(number, base).len() - 1 - i) as nat,
        ) as nat) % base,
{
    let digits = numeral::minimal_digits(number, base);
    numeral::digit_at_its_place(number, base, 0, i);
    numeral::lemma_value_of_minimal(number, base);
    if 0 <= i < digits.len() {
        assert(digits[i] < base);
    }
}

/// What texts hold is what each of them holds, in order.
pub proof fn contents_in_order(texts: Seq<String>, i: int)
    ensures
        contents(texts).len() == texts.len(),
        0 <= i < texts.len() ==> contents(texts)[i] == texts[i]@,
{
}

/// A number is written in the sixteen symbols from `0` to `f`, each at the place of its digit.
pub proof fn written_in_sixteen_symbols(number: nat, base: nat, i: int)
    requires
        2 <= base <= 16,
        number > 0,
    ensures
        "0123456789abcdef"@.len() == 16,
        0 <= i < number_text(number, base).len() ==> number_text(number, base)[i]
            == "0123456789abcdef"@[(number / (vstd::arithmetic::power::pow(
            base as int,
            (number_text(number, base).len() - 1 - i) as nat,
        ) as nat) % base) as int],
        number_text(0, base) == "0"@,
        decimal_text(number) == number_text(number, 10),
{
    let digits = numeral::minimal_digits(number, base);
    reveal_strlit("0123456789abcdef");
    reveal_strlit("0");
    assert(number_text(0, base) =~= "0"@);
    numeral::digit_at_its_place(number, base, 0, i);
    numeral::lemma_value_of_minimal(number, base);
    if 0 <= i < digits.len() {
        assert(digits[i] < base);
    }
}

} // verus!
