//! `did:key` names: an Ed25519 public key as text.
use crate::base58;
use crate::bytes;
use crate::numeral;
use crate::text;
use vstd::arithmetic::div_mod::lemma_fundamental_div_mod_converse;
use vstd::arithmetic::power::pow;
use vstd::prelude::*;

verus! {

/// The multicodec bytes that say "Ed25519 public key", then the key.
pub open spec fn tagged_key(pubkey: Seq<u8>) -> Seq<u8> {
    seq![0xedu8, 0x01u8] + pubkey
}

/// The name of a public key.
pub open spec fn did_key_text(pubkey: Seq<u8>) -> Seq<char> {
    "did:key:z"@ + base58::base58_text(tagged_key(pubkey))
}

/// The public key that `text` names, or what is wrong with it.
pub open spec fn did_key_outcome(text: Seq<char>) -> Result<Seq<u8>, Seq<char>> {
    let encoded = text.skip("did:key:z"@.len() as int);
    let decoded = base58::base58_bytes(encoded);
    if !text::has_prefix(text, "did:key:z"@) {
        Err("Invalid did:key prefix"@)
    } else if !base58::is_base58(encoded) {
        Err(base58::base58_complaint(encoded))
    } else if decoded.len() != 34 {
        Err(
            "Invalid decoded did:key length: "@ + text::decimal_text(decoded.len())
                + " (expected 34)"@,
        )
    } else if decoded[0] != 0xed || decoded[1] != 0x01 {
        Err(
            "Invalid multicodec did:key prefix: [0x"@ + text::number_text(decoded[0] as nat, 16)
                + ", 0x"@ + text::number_text(decoded[1] as nat, 16) + "]"@,
        )
    } else {
        Ok(decoded.skip(2))
    }
}

/// `text` names a public key.
pub open spec fn is_did_key(text: Seq<char>) -> bool {
    let encoded = text.skip("did:key:z"@.len() as int);
    let decoded = base58::base58_bytes(encoded);
    &&& text::has_prefix(text, "did:key:z"@)
    &&& base58::is_base58(encoded)
    &&& decoded.len() == 34
    &&& decoded[0] == 0xed
    &&& decoded[1] == 0x01
}

/// A text is read as a public key exactly if it names one.
pub proof fn lemma_did_key_outcome(text: Seq<char>)
    ensures
        did_key_outcome(text) is Ok <==> is_did_key(text),
{
}

/// The name of a public key: `did:key:z` and the key in base58 behind its multicodec bytes.
pub fn bytes_to_did_key(pubkey: &[u8; 32]) -> (did_key: String)
    ensures
        did_key@ == did_key_text(pubkey@),
{
    let mut tagged: Vec<u8> = Vec::new();
    tagged.push(0xed);
    tagged.push(0x01);
    bytes::append(&mut tagged, pubkey);
    assert(tagged@ =~= tagged_key(pubkey@));
    let mut did_key = "did:key:z".to_owned();
    did_key.append(&base58::base58_encode(&tagged));
    did_key
}

/// The public key that `did_key` names, or what is wrong with it.
pub fn parse_did_key(did_key: &str) -> (result: Result<[u8; 32], String>)
    ensures
        result matches Ok(pubkey) ==> did_key_outcome(did_key@) == Ok::<Seq<u8>, Seq<char>>(
            pubkey@,
        ),
        result matches Err(message) ==> did_key_outcome(did_key@) == Err::<Seq<u8>, Seq<char>>(
            message@,
        ),
{
    let encoded = match text::without_prefix(did_key, "did:key:z") {
        Some(encoded) => encoded,
        None => return Err("Invalid did:key prefix".to_owned()),
    };
    let decoded = match base58::base58_decode(&encoded) {
        Ok(decoded) => decoded,
        Err(message) => return Err(message),
    };
    if decoded.len() != 34 {
        let mut message = "Invalid decoded did:key length: ".to_owned();
        text::push_number(&mut message, decoded.len() as u64, 10);
        message.append(" (expected 34)");
        return Err(message);
    }
    if decoded[0] != 0xed || decoded[1] != 0x01 {
        let mut message = "Invalid multicodec did:key prefix: [0x".to_owned();
        text::push_number(&mut message, decoded[0] as u64, 16);
        message.append(", 0x");
        text::push_number(&mut message, decoded[1] as u64, 16);
        message.append("]");
        return Err(message);
    }
    let pubkey: [u8; 32] = bytes::array_at(&decoded, 2);
    assert(pubkey@ =~= decoded@.skip(2));
    Ok(pubkey)
}

/// A public key is read back from its name.
pub proof fn did_key_round_trip(pubkey: Seq<u8>)
    requires
        pubkey.len() == 32,
    ensures
        did_key_outcome(did_key_text(pubkey)) == Ok::<Seq<u8>, Seq<char>>(pubkey),
        is_did_key(did_key_text(pubkey)),
{
    let tagged = tagged_key(pubkey);
    let name = did_key_text(pubkey);
    base58::base58_round_trip(tagged);
    assert(name.take("did:key:z"@.len() as int) =~= "did:key:z"@);
    assert(name.skip("did:key:z"@.len() as int) =~= base58::base58_text(tagged));
    assert(tagged.skip(2) =~= pubkey);
}

/// Two public keys of one name are one key.
pub proof fn did_key_names_one_key(first: Seq<u8>, second: Seq<u8>)
    requires
        first.len() == 32,
        second.len() == 32,
        did_key_text(first) == did_key_text(second),
    ensures
        first == second,
{
    did_key_round_trip(first);
    did_key_round_trip(second);
}

/// Every Ed25519 key has a name that starts with `did:key:z6Mk`.
pub proof fn did_key_starts_with_z6mk(pubkey: Seq<u8>)
    requires
        pubkey.len() == 32,
    ensures
        text::has_prefix(did_key_text(pubkey), "did:key:z6Mk"@),
{
    reveal_strlit("did:key:z");
    reveal_strlit("did:key:z6Mk");
    let tagged = tagged_key(pubkey);
    let digits = base58::byte_digits(tagged);
    let head = seq![0xednat, 0x01nat];
    let tail = base58::byte_digits(pubkey);
    assert(digits =~= head + tail);
    numeral::lemma_value_of_join(head, tail, 256);
    assert(numeral::all_below(tail, 256));
    numeral::lemma_value_bound(tail, 256);
    assert(numeral::digits_value(head, 256) == 0xed01) by {
        reveal_with_fuel(numeral::digits_value, 3);
        assert(head.drop_last() =~= seq![0xednat]);
        assert(head.drop_last().drop_last() =~= Seq::empty());
    }
    let value = numeral::digits_value(digits, 256);
    let unit: int =
        389790918707373377135528568990913592653094657612049369038476873218241589149696int;
    lemma_powers();
    assert(18023 * unit <= value < 18024 * unit);
    lemma_fundamental_div_mod_converse(value as int, unit, 18023, value - 18023 * unit);
    numeral::lemma_first_digits(value, 58, 44);
    assert(numeral::minimal_digits(18023, 58) =~= seq![5nat, 20nat, 43nat]) by {
        reveal_with_fuel(numeral::minimal_digits, 4);
    }
    let minimal = numeral::minimal_digits(value, 58);
    assert(minimal.take(minimal.len() - 44).len() == 3);
    assert(minimal[0] == minimal.take(3)[0]);
    assert(minimal[1] == minimal.take(3)[1]);
    assert(minimal[2] == minimal.take(3)[2]);
    let encoded = base58::base58_text(tagged);
    assert(numeral::leading_zeros(digits) == 0);
    assert(encoded[0] == '6' && encoded[1] == 'M' && encoded[2] == 'k');
    assert(did_key_text(pubkey).take("did:key:z6Mk"@.len() as int) =~= "did:key:z6Mk"@);
}

proof fn lemma_powers()
    ensures
        pow(58, 44)
            == 389790918707373377135528568990913592653094657612049369038476873218241589149696int,
        pow(256, 32)
            == 115792089237316195423570985008687907853269984665640564039457584007913129639936int,
{
    reveal(pow);
    reveal_with_fuel(pow, 45);
}

/// A text names a key exactly if it is the name of that key: nothing else is read as it.
pub proof fn did_key_reads_one_name(name: Seq<char>, pubkey: Seq<u8>)
    requires
        pubkey.len() == 32,
    ensures
        did_key_outcome(name) == Ok::<Seq<u8>, Seq<char>>(pubkey) <==> name == did_key_text(pubkey),
{
    did_key_round_trip(pubkey);
    if did_key_outcome(name) == Ok::<Seq<u8>, Seq<char>>(pubkey) {
        let encoded = name.skip("did:key:z"@.len() as int);
        base58::base58_reads_one_text(encoded);
        assert(base58::base58_bytes(encoded) =~= seq![0xedu8, 0x01u8] + pubkey);
        assert(name =~= "did:key:z"@ + encoded);
    }
}

/// A name is `did:key:z` and the base58 text of the bytes `ed` and `01` and the whole key. Every
/// key that is read has 32 bytes.
pub proof fn did_key_is_tagged_base58(pubkey: Seq<u8>, name: Seq<char>)
    ensures
        did_key_text(pubkey) == "did:key:z"@ + base58::base58_text(
            seq![0xedu8, 0x01u8] + pubkey,
        ),
        did_key_outcome(name) matches Ok(read) ==> read.len() == 32,
{
}

/// What is wrong with a text that names no key: another start, a character that is not base58,
/// another length than 34 bytes, or other bytes before the key, told in this order.
pub proof fn did_key_faults(rest: Seq<char>, name: Seq<char>)
    ensures
        (forall|after: Seq<char>| name != "did:key:z"@ + after) ==> did_key_outcome(name) == Err::<
            Seq<u8>,
            Seq<char>,
        >("Invalid did:key prefix"@),
        !base58::is_base58(rest) ==> did_key_outcome("did:key:z"@ + rest) == Err::<
            Seq<u8>,
            Seq<char>,
        >(base58::base58_complaint(rest)),
        base58::is_base58(rest) && base58::base58_bytes(rest).len() != 34 ==> did_key_outcome(
            "did:key:z"@ + rest,
        ) == Err::<Seq<u8>, Seq<char>>(
            "Invalid decoded did:key length: "@ + text::number_text(
                base58::base58_bytes(rest).len(),
                10,
            ) + " (expected 34)"@,
        ),
        base58::is_base58(rest) && base58::base58_bytes(rest).len() == 34
            && base58::base58_bytes(rest).take(2) != seq![0xedu8, 0x01u8] ==> did_key_outcome(
            "did:key:z"@ + rest,
        ) == Err::<Seq<u8>, Seq<char>>(
            "Invalid multicodec did:key prefix: [0x"@ + text::number_text(
                base58::base58_bytes(rest)[0] as nat,
                16,
            ) + ", 0x"@ + text::number_text(base58::base58_bytes(rest)[1] as nat, 16) + "]"@,
        ),
{
    text::prefix_and_rest(name, "did:key:z"@, rest);
    let decoded = base58::base58_bytes(rest);
    if decoded.len() == 34 && decoded[0] == 0xed && decoded[1] == 0x01 {
        assert(decoded.take(2) =~= seq![0xedu8, 0x01u8]);
    }
}

/// A text is a name exactly if it is the name of some key of 32 bytes.
pub proof fn every_name_is_of_a_key(name: Seq<char>)
    ensures
        is_did_key(name) <==> exists|pubkey: Seq<u8>|
            pubkey.len() == 32 && name == #[trigger] did_key_text(pubkey),
{
    lemma_did_key_outcome(name);
    if is_did_key(name) {
        let pubkey = did_key_outcome(name)->Ok_0;
        did_key_reads_one_name(name, pubkey);
        assert(name == did_key_text(pubkey));
    }
    if exists|pubkey: Seq<u8>| pubkey.len() == 32 && name == #[trigger] did_key_text(pubkey) {
        let pubkey = choose|pubkey: Seq<u8>|
            pubkey.len() == 32 && name == #[trigger] did_key_text(pubkey);
        did_key_round_trip(pubkey);
    }
}

} // verus!
