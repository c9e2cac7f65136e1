//! The secret key: 128 random bits that the user keeps on paper, in groups of base32 symbols.
use crate::base32;
use crate::bytes;
use crate::crypto;
use crate::entropy;
use crate::text;
use vstd::prelude::*;

verus! {

/// A secret key. It has no `Debug`, so that no log shows it.
#[derive(Clone, Copy)]
pub struct SecretKey {
    bytes: [u8; 16],
}

impl View for SecretKey {
    type V = Seq<u8>;

    closed spec fn view(&self) -> Seq<u8> {
        self.bytes@
    }
}

/// What is wrong with a text that is no secret key.
#[derive(Debug, PartialEq, Eq, Structural)]
pub enum SecretKeyError {
    InvalidLength,
    InvalidCharacter,
}

impl SecretKeyError {
    /// The error in words.
    pub fn message(&self) -> (message: String)
        ensures
            message@ == match *self {
                SecretKeyError::InvalidLength => "Invalid secret key length"@,
                SecretKeyError::InvalidCharacter => "Invalid base32 character in secret key"@,
            },
    {
        match self {
            SecretKeyError::InvalidLength => "Invalid secret key length".to_owned(),
            SecretKeyError::InvalidCharacter => "Invalid base32 character in secret key".to_owned(),
        }
    }
}

/// The text in groups of four characters, with a hyphen between two groups.
pub open spec fn grouped(plain: Seq<char>) -> Seq<char>
    decreases plain.len(),
{
    if plain.len() == 0 {
        Seq::empty()
    } else {
        let before = grouped(plain.drop_last());
        if plain.len() > 1 && plain.len() % 4 == 1 {
            before.push('-').push(plain.last())
        } else {
            before.push(plain.last())
        }
    }
}

/// The character counts when a secret key is read: it is neither white space nor a hyphen.
pub open spec fn counts(c: char) -> bool {
    !text::white_space(c) && c != '-'
}

/// The characters of a typed text that count, with small ASCII letters as capitals.
pub open spec fn normalized(typed: Seq<char>) -> Seq<char> {
    typed.filter(|c: char| counts(c)).map_values(|c: char| text::ascii_capital(c))
}

/// The secret key that a typed text gives.
pub open spec fn typed_outcome(typed: Seq<char>) -> Result<Seq<u8>, SecretKeyError> {
    if bytes::utf8(normalized(typed)).len() != 26 {
        Err(SecretKeyError::InvalidLength)
    } else if !base32::is_base32(normalized(typed)) {
        Err(SecretKeyError::InvalidCharacter)
    } else {
        Ok(base32::base32_bytes(normalized(typed)))
    }
}

/// The groups of a text without hyphens are the pieces between the hyphens, four characters to a
/// group.
pub proof fn lemma_group_count(plain: Seq<char>)
    requires
        !plain.contains('-'),
        plain.len() > 0,
    ensures
        text::pieces(grouped(plain), '-').len() == (plain.len() + 3) / 4,
        grouped(plain).len() == plain.len() + (plain.len() - 1) / 4,
    decreases plain.len(),
{
    let fewer = plain.drop_last();
    let c = plain.last();
    let before = grouped(fewer);
    assert(plain.contains(c) && c != '-');
    if fewer.len() > 0 {
        lemma_no_hyphen_before(plain);
        lemma_group_count(fewer);
    }
    text::lemma_some_piece(before, '-');
    text::lemma_pieces_push(before, c, '-');
    text::lemma_pieces_push(before, '-', '-');
    text::lemma_pieces_push(before.push('-'), c, '-');
}

proof fn lemma_no_hyphen_before(plain: Seq<char>)
    requires
        !plain.contains('-'),
        plain.len() > 0,
    ensures
        !plain.drop_last().contains('-'),
{
    let fewer = plain.drop_last();
    if fewer.contains('-') {
        let i = choose|i: int| 0 <= i < fewer.len() && fewer[i] == '-';
        assert(plain[i] == '-');
    }
}

proof fn lemma_normalized_groups(plain: Seq<char>)
    requires
        forall|i: int| 0 <= i < plain.len() ==> base32::base32_digit(#[trigger] plain[i]) is Some,
    ensures
        normalized(grouped(plain)) == plain,
    decreases plain.len(),
{
    reveal(Seq::filter);
    let keep = |c: char| counts(c);
    if plain.len() == 0 {
        assert(normalized(grouped(plain)) =~= plain);
    } else {
        let fewer = plain.drop_last();
        let c = plain.last();
        assert(plain[plain.len() - 1] == c);
        lemma_normalized_groups(fewer);
        let before = grouped(fewer);
        assert(before.push(c).drop_last() =~= before);
        assert(before.push('-').drop_last() =~= before);
        assert(before.push('-').push(c).drop_last() =~= before.push('-'));
        assert(!keep('-'));
        assert(keep(c) && text::ascii_capital(c) == c);
        assert(before.push('-').filter(keep) == before.filter(keep));
        assert(grouped(plain).filter(keep) == before.filter(keep).push(c));
        assert(normalized(grouped(plain)) =~= normalized(before).push(c));
        assert(fewer.push(c) =~= plain);
    }
}

/// Whatever is typed gives the key, so long as its characters that count are those of the key:
/// neither separators nor the case of letters matter.
pub proof fn typed_key_is_read(key: Seq<u8>, typed: Seq<char>)
    requires
        key.len() == 16,
        normalized(typed) == base32::base32_text(key),
    ensures
        typed_outcome(typed) == Ok::<Seq<u8>, SecretKeyError>(key),
{
    let plain = base32::base32_text(key);
    base32::base32_round_trip(key);
    lemma_base32_is_ascii(plain);
    vstd::utf8::is_ascii_chars_encode_utf8(plain);
}

/// A secret key that is written down and typed in again is the same key.
pub proof fn secret_key_round_trip(key: Seq<u8>)
    requires
        key.len() == 16,
    ensures
        typed_outcome(grouped(base32::base32_text(key))) == Ok::<Seq<u8>, SecretKeyError>(key),
{
    base32::base32_round_trip(key);
    lemma_normalized_groups(base32::base32_text(key));
    typed_key_is_read(key, grouped(base32::base32_text(key)));
}

/// A secret key is written as seven groups, in 32 characters.
pub proof fn secret_key_has_seven_groups(key: Seq<u8>)
    requires
        key.len() == 16,
    ensures
        grouped(base32::base32_text(key)).len() == 32,
        text::pieces(grouped(base32::base32_text(key)), '-').len() == 7,
{
    base32::base32_round_trip(key);
    lemma_base32_is_ascii(base32::base32_text(key));
    lemma_group_count(base32::base32_text(key));
}

proof fn lemma_base32_is_ascii(plain: Seq<char>)
    requires
        forall|i: int| 0 <= i < plain.len() ==> base32::base32_digit(#[trigger] plain[i]) is Some,
    ensures
        vstd::utf8::is_ascii_chars(plain),
        !plain.contains('-'),
{
    assert forall|i: int| 0 <= i < plain.len() implies plain[i] != '-' && (plain[i] as u32)
        < 128 by {
        assert(base32::base32_digit(plain[i]) is Some);
    }
}

/// What a log shows of a secret key nowhere holds the key as it is written down.
pub proof fn debug_text_hides_the_key(key: Seq<u8>, at: int)
    requires
        key.len() == 16,
        0 <= at <= debug_words().len() - 32,
    ensures
        debug_words().subrange(at, at + 32) != grouped(base32::base32_text(key)),
{
    let written = grouped(base32::base32_text(key));
    let shown = debug_words().subrange(at, at + 32);
    reveal_strlit("SecretKey { bytes: \"<redacted> [SCRUBBED]\" }");
    secret_key_has_seven_groups(key);
    if !written.contains('-') {
        text::lemma_single_piece(written, '-');
    }
    let i = choose|i: int| 0 <= i < written.len() && written[i] == '-';
    assert(shown[i] == debug_words()[at + i]);
    assert(forall|j: int| 0 <= j < debug_words().len() ==> debug_words()[j] != '-');
}

/// What a log shows of any secret key.
pub open spec fn debug_words() -> Seq<char> {
    "SecretKey { bytes: \"<redacted> [SCRUBBED]\" }"@
}

impl SecretKey {
    /// A random secret key: the bytes that the operating system gave.
    pub fn generate() -> (key: Self)
        ensures
            exists|entropy: [u8; 16]| #[trigger] entropy::os_gave(entropy) && key@ == entropy@,
    {
        Self::generate_with_rng(entropy::os_draw())
    }

    /// The secret key of 16 bytes that a source of random bytes gave.
    pub fn generate_with_rng(entropy: [u8; 16]) -> (key: Self)
        ensures
            key@ == entropy@,
    {
        SecretKey { bytes: entropy }
    }

    /// The key as base32 text in groups of four symbols.
    pub fn to_base32(&self) -> (formatted: String)
        ensures
            formatted@ == grouped(base32::base32_text(self@)),
    {
        let unpadded = text::chars_of(&base32::base32_encode(&self.bytes));
        let mut formatted = String::new();
        let mut i: usize = 0;
        assert(unpadded@.take(0) =~= Seq::empty());
        while i < unpadded.len()
            invariant
                i <= unpadded@.len(),
                formatted@ == grouped(unpadded@.take(i as int)),
            decreases unpadded@.len() - i,
        {
            assert(unpadded@.take(i + 1).drop_last() =~= unpadded@.take(i as int));
            if i > 0 && i % 4 == 0 {
                formatted.push('-');
            }
            formatted.push(unpadded[i]);
            i = i + 1;
        }
        assert(unpadded@.take(i as int) =~= unpadded@);
        formatted
    }

    /// The bytes of the key.
    pub fn to_bytes(&self) -> (bytes: [u8; 16])
        ensures
            bytes@ == self@,
    {
        self.bytes
    }

    /// Reads a key; white space, hyphens and the case of letters do not matter.
    pub fn from_base32(s: &str) -> (result: Result<Self, SecretKeyError>)
        ensures
            result matches Ok(key) ==> typed_outcome(s@) == Ok::<Seq<u8>, SecretKeyError>(key@),
            result matches Err(error) ==> typed_outcome(s@) == Err::<Seq<u8>, SecretKeyError>(
                error,
            ),
            result matches Ok(key) ==> normalized(s@) == base32::base32_text(key@),
            result matches Ok(_) ==> normalized(s@).len() == 26,
            result matches Err(SecretKeyError::InvalidLength) <==> bytes::utf8(
                normalized(s@),
            ).len() != 26,
    {
        let typed = text::chars_of(s);
        let mut kept = String::new();
        let mut i: usize = 0;
        let ghost keep = |c: char| counts(c);
        proof {
            reveal(Seq::filter);
            assert(typed@.take(0) =~= Seq::empty());
            assert(normalized(typed@.take(0)) =~= Seq::empty());
        }
        while i < typed.len()
            invariant
                i <= typed@.len(),
                keep == (|c: char| counts(c)),
                kept@ == normalized(typed@.take(i as int)),
            decreases typed@.len() - i,
        {
            let c = typed[i];
            let ghost before = typed@.take(i as int);
            proof {
                reveal(Seq::filter);
                assert(typed@.take(i + 1).drop_last() =~= before);
                assert(typed@.take(i + 1).last() == c);
                assert(keep(c) == counts(c));
                if counts(c) {
                    assert(typed@.take(i + 1).filter(keep) == before.filter(keep).push(c));
                    assert(normalized(typed@.take(i + 1)) =~= normalized(before).push(
                        text::ascii_capital(c),
                    ));
                } else {
                    assert(typed@.take(i + 1).filter(keep) == before.filter(keep));
                }
            }
            if !c.is_whitespace() && c != '-' {
                kept.push(text::to_ascii_capital(c));
            }
            i = i + 1;
        }
        assert(typed@.take(i as int) =~= s@);
        assert(kept@ == normalized(s@));
        if kept.as_str().as_bytes().len() != 26 {
            return Err(SecretKeyError::InvalidLength);
        }
        let decoded = match base32::base32_decode(&kept) {
            Some(decoded) => decoded,
            None => return Err(SecretKeyError::InvalidCharacter),
        };
        proof {
            base32::base32_reads_one_text(kept@);
            lemma_base32_is_ascii(kept@);
            vstd::utf8::is_ascii_chars_encode_utf8(kept@);
            base32::lemma_bytes_length(kept@);
        }
        match bytes::exact_array(&decoded) {
            Some(key) => Ok(SecretKey { bytes: key }),
            None => Err(SecretKeyError::InvalidLength),
        }
    }

    /// The SHA-256 hash of the key, by which it can be checked later.
    pub fn verifier_hash(&self) -> (hash: [u8; 32])
        ensures
            hash@ == crypto::sha256_digest(self@),
    {
        crypto::sha256(&self.bytes)
    }

    /// The key has the stored hash. Every byte is compared, wherever the first difference is.
    pub fn verify(&self, stored_hash: &[u8; 32]) -> (same: bool)
        ensures
            same == (stored_hash@ == crypto::sha256_digest(self@)),
    {
        let current_hash = self.verifier_hash();
        let mut difference: u8 = 0;
        let mut i: usize = 0;
        while i < 32
            invariant
                i <= 32,
                (difference == 0) == (forall|j: int|
                    0 <= j < i ==> current_hash@[j] == stored_hash@[j]),
            decreases 32 - i,
        {
            let x: u8 = current_hash[i];
            let y: u8 = stored_hash[i];
            assert((difference | (x ^ y)) == 0 <==> (difference == 0 && x == y)) by (bit_vector);
            difference = difference | (x ^ y);
            i = i + 1;
        }
        proof {
            if difference == 0 {
                assert(current_hash@ =~= stored_hash@);
            }
        }
        difference == 0
    }

    /// What a log may show of the key.
    pub fn debug_text(&self) -> (text: String)
        ensures
            text@ == debug_words(),
            text@ == "SecretKey { bytes: \"<redacted> [SCRUBBED]\" }"@,
    {
        "SecretKey { bytes: \"<redacted> [SCRUBBED]\" }".to_owned()
    }

    /// What may be shown of the key.
    pub fn display_text(&self) -> (text: String)
        ensures
            text@ == "<redacted>"@,
    {
        "<redacted>".to_owned()
    }
}

/// A key is read only from a text whose characters that count are the 26 symbols that the key is
/// written in: no text of fewer or more symbols is read, and none of other symbols.
pub proof fn read_key_was_written_so(typed: Seq<char>, key: Seq<u8>)
    requires
        typed_outcome(typed) == Ok::<Seq<u8>, SecretKeyError>(key),
    ensures
        normalized(typed) == base32::base32_text(key),
        normalized(typed).len() == 26,
        key.len() == 16,
{
    let kept = normalized(typed);
    base32::base32_reads_one_text(kept);
    lemma_base32_is_ascii(kept);
    vstd::utf8::is_ascii_chars_encode_utf8(kept);
    base32::lemma_bytes_length(kept);
}

/// A text is refused for its length exactly if its characters that count are not 26 bytes, and
/// else for its characters exactly if they write no key.
pub proof fn secret_key_faults(typed: Seq<char>)
    ensures
        bytes::utf8(normalized(typed)).len() != 26 <==> typed_outcome(typed) == Err::<
            Seq<u8>,
            SecretKeyError,
        >(SecretKeyError::InvalidLength),
        bytes::utf8(normalized(typed)).len() == 26 && (forall|key: Seq<u8>|
            key.len() == 16 ==> normalized(typed) != #[trigger] base32::base32_text(key))
            <==> typed_outcome(typed) == Err::<Seq<u8>, SecretKeyError>(
            SecretKeyError::InvalidCharacter,
        ),
{
    if typed_outcome(typed) is Ok {
        read_key_was_written_so(typed, typed_outcome(typed)->Ok_0);
    }
    if typed_outcome(typed) is Err {
        assert forall|key: Seq<u8>| key.len() == 16 implies normalized(typed)
            != #[trigger] base32::base32_text(key) by {
            if normalized(typed) == base32::base32_text(key) {
                typed_key_is_read(key, typed);
            }
        }
    }
}

/// Two texts that are read as one key differ only in characters that do not count and in the case
/// of letters.
pub proof fn one_key_is_written_one_way(first: Seq<char>, second: Seq<char>)
    requires
        typed_outcome(first) is Ok,
        typed_outcome(first) == typed_outcome(second),
    ensures
        normalized(first) == normalized(second),
{
    read_key_was_written_so(first, typed_outcome(first)->Ok_0);
    read_key_was_written_so(second, typed_outcome(first)->Ok_0);
}

/// A text is read character by character, in order: white space and hyphens are passed over, and
/// of every other character its capital counts.
pub proof fn every_character_is_read(before: Seq<char>, c: char)
    ensures
        text::white_space(c) || c == '-' ==> normalized(before.push(c)) == normalized(before),
        !text::white_space(c) && c != '-' ==> normalized(before.push(c)) == normalized(before).push(
            text::ascii_capital(c),
        ),
        normalized(Seq::<char>::empty()) == Seq::<char>::empty(),
{
    reveal(Seq::filter);
    let keep = |x: char| counts(x);
    assert(before.push(c).drop_last() =~= before);
    assert(keep(c) == counts(c));
    assert(normalized(Seq::<char>::empty()) =~= Seq::<char>::empty());
    if counts(c) {
        assert(before.push(c).filter(keep) == before.filter(keep).push(c));
        assert(normalized(before.push(c)) =~= normalized(before).push(text::ascii_capital(c)));
    } else {
        assert(before.push(c).filter(keep) == before.filter(keep));
    }
}

/// Every fifth character of a grouped text is a hyphen; the others are those of the text, in
/// order.
pub proof fn every_fifth_character_is_a_hyphen(plain: Seq<char>, i: int)
    ensures
        grouped(plain).len() == if plain.len() == 0 {
            0
        } else {
            plain.len() + (plain.len() - 1) / 4
        },
        0 <= i < grouped(plain).len() ==> grouped(plain)[i] == if i % 5 == 4 {
            '-'
        } else {
            plain[i - i / 5]
        },
    decreases plain.len(),
{
    if plain.len() > 0 {
        every_fifth_character_is_a_hyphen(plain.drop_last(), i);
    }
}

/// The groups of a written key are four symbols each, in order; the last has what is left.
pub proof fn group_is_four_symbols(plain: Seq<char>, i: int)
    requires
        !plain.contains('-'),
        0 <= i < (plain.len() + 3) / 4,
    ensures
        text::pieces(grouped(plain), '-').len() == (plain.len() + 3) / 4,
        text::pieces(grouped(plain), '-')[i] == plain.subrange(
            4 * i,
            if 4 * i + 4 < plain.len() {
                4 * i + 4
            } else {
                plain.len() as int
            },
        ),
    decreases plain.len(),
{
    let fewer = plain.drop_last();
    let c = plain.last();
    let before = grouped(fewer);
    assert(plain.contains(c) && c != '-');
    lemma_group_count(plain);
    if fewer.len() > 0 {
        lemma_no_hyphen_before(plain);
        lemma_group_count(fewer);
        if i < (fewer.len() + 3) / 4 {
            group_is_four_symbols(fewer, i);
        }
    }
    text::lemma_some_piece(before, '-');
    text::lemma_pieces_push(before, c, '-');
    text::lemma_pieces_push(before, '-', '-');
    text::lemma_pieces_push(before.push('-'), c, '-');
    let end = if 4 * i + 4 < plain.len() {
        4 * i + 4
    } else {
        plain.len() as int
    };
    let group = text::pieces(grouped(plain), '-')[i];
    if i == (plain.len() + 3) / 4 - 1 {
        if plain.len() % 4 == 1 {
            assert(group =~= plain.subrange(4 * i, end));
        } else {
            assert(group =~= fewer.subrange(4 * i, fewer.len() as int).push(c));
            assert(group =~= plain.subrange(4 * i, end));
        }
    } else {
        assert(group =~= plain.subrange(4 * i, end));
    }
}

/// The seven groups of a key are its 26 symbols, four to a group, and two in the last.
pub proof fn groups_of_a_key(key: Seq<u8>)
    requires
        key.len() == 16,
    ensures
        base32::base32_text(key).len() == 26,
        text::pieces(grouped(base32::base32_text(key)), '-').len() == 7,
        forall|i: int|
            0 <= i < 7 ==> #[trigger] text::pieces(grouped(base32::base32_text(key)), '-')[i]
                == base32::base32_text(key).subrange(
                4 * i,
                if i < 6 {
                    4 * i + 4
                } else {
                    26
                },
            ),
{
    let plain = base32::base32_text(key);
    base32::base32_round_trip(key);
    lemma_base32_is_ascii(plain);
    secret_key_has_seven_groups(key);
    assert forall|i: int| 0 <= i < 7 implies #[trigger] text::pieces(grouped(plain), '-')[i]
        == plain.subrange(
        4 * i,
        if i < 6 {
            4 * i + 4
        } else {
            26
        },
    ) by {
        group_is_four_symbols(plain, i);
    }
}

} // verus!
