//! The local identity: a signing key and an agreement key in the keychain, and the `did:key`
//! name of the first.
use crate::base58;
use crate::bytes;
use crate::clock;
use crate::crypto;
use crate::did_key;
use crate::entropy;
pub use crate::keychain::{DynamicKeychainBackend, KeychainBackend, MockKeychainBackend};
use crate::keychain;
use crate::keychain::{Contents, Slot};
use crate::text;
use vstd::prelude::*;

verus! {

/// What can go wrong with an identity.
#[derive(Debug, Clone)]
pub enum IdentityError {
    KeychainUnavailable(String),
    AlreadyBootstrapped,
    CorruptExistingIdentity(String),
    NotBootstrapped,
}

/// An `IdentityError` by the text that it holds.
pub enum IdentityFault {
    KeychainUnavailable(Seq<char>),
    AlreadyBootstrapped,
    CorruptExistingIdentity(Seq<char>),
    NotBootstrapped,
}

impl View for IdentityError {
    type V = IdentityFault;

    open spec fn view(&self) -> IdentityFault {
        match self {
            IdentityError::KeychainUnavailable(text) => IdentityFault::KeychainUnavailable(text@),
            IdentityError::AlreadyBootstrapped => IdentityFault::AlreadyBootstrapped,
            IdentityError::CorruptExistingIdentity(text) => IdentityFault::CorruptExistingIdentity(
                text@,
            ),
            IdentityError::NotBootstrapped => IdentityFault::NotBootstrapped,
        }
    }
}

/// The words for an `IdentityError`.
pub open spec fn identity_message(fault: IdentityFault) -> Seq<char> {
    match fault {
        IdentityFault::KeychainUnavailable(text) => "Keychain unavailable: "@ + text,
        IdentityFault::AlreadyBootstrapped => "Identity is already bootstrapped"@,
        IdentityFault::CorruptExistingIdentity(text) => "Corrupt existing identity: "@ + text,
        IdentityFault::NotBootstrapped => "Identity has not been bootstrapped yet"@,
    }
}

impl IdentityError {
    /// The error in words.
    pub fn message(&self) -> (message: String)
        ensures
            message@ == identity_message(self@),
            match *self {
                IdentityError::KeychainUnavailable(text) => message@ == "Keychain unavailable: "@
                    + text@,
                IdentityError::AlreadyBootstrapped => message@
                    == "Identity is already bootstrapped"@,
                IdentityError::CorruptExistingIdentity(text) => message@
                    == "Corrupt existing identity: "@ + text@,
                IdentityError::NotBootstrapped => message@
                    == "Identity has not been bootstrapped yet"@,
            },
    {
        match self {
            IdentityError::KeychainUnavailable(text) => "Keychain unavailable: ".to_owned().concat(
                text,
            ),
            IdentityError::AlreadyBootstrapped => "Identity is already bootstrapped".to_owned(),
            IdentityError::CorruptExistingIdentity(text) => {
                "Corrupt existing identity: ".to_owned().concat(text)
            },
            IdentityError::NotBootstrapped => "Identity has not been bootstrapped yet".to_owned(),
        }
    }
}

/// The user name that every entry of the identity is kept under.
pub open spec fn user() -> Seq<char> {
    "default"@
}

/// Where the signing key is kept.
pub open spec fn signing_slot() -> Slot {
    ("chaperone-signing-key"@, user())
}

/// Where the agreement key is kept.
pub open spec fn agreement_slot() -> Slot {
    ("chaperone-agreement-key"@, user())
}

/// Where the time of creation and the rotation epoch are kept.
pub open spec fn metadata_slot() -> Slot {
    ("chaperone-identity-metadata"@, user())
}

/// Where the signed prekey is kept.
pub open spec fn prekey_slot() -> Slot {
    ("chaperone-signed-prekey"@, user())
}

/// The four slots are four.
pub proof fn slots_differ()
    ensures
        signing_slot() != agreement_slot(),
        signing_slot() != metadata_slot(),
        signing_slot() != prekey_slot(),
        agreement_slot() != metadata_slot(),
        agreement_slot() != prekey_slot(),
        metadata_slot() != prekey_slot(),
{
    reveal_strlit("chaperone-signing-key");
    reveal_strlit("chaperone-agreement-key");
    reveal_strlit("chaperone-identity-metadata");
    reveal_strlit("chaperone-signed-prekey");
    assert("chaperone-signing-key"@.len() == 21);
    assert("chaperone-agreement-key"@.len() == 23);
    assert("chaperone-identity-metadata"@.len() == 27);
    assert("chaperone-signed-prekey"@.len() == 23);
    assert("chaperone-agreement-key"@[10] == 'a');
    assert("chaperone-signed-prekey"@[10] == 's');
}

/// The seed of the signing key.
pub open spec fn signing_seed(seed: Seq<u8>) -> Seq<u8> {
    crypto::sha256_digest(seed + bytes::utf8("chaperone-signing-key"@))
}

/// The seed of the agreement key.
pub open spec fn agreement_seed(seed: Seq<u8>) -> Seq<u8> {
    crypto::sha256_digest(seed + bytes::utf8("chaperone-agreement-key"@))
}

/// The seeds of the two keys, each a SHA-256 hash of the seed and a label.
pub fn derive_seeds(seed: &[u8; 32]) -> (seeds: ([u8; 32], [u8; 32]))
    ensures
        seeds.0@ == signing_seed(seed@),
        seeds.1@ == agreement_seed(seed@),
        seeds.0@ == crypto::sha256_digest(seed@ + bytes::utf8("chaperone-signing-key"@)),
        seeds.1@ == crypto::sha256_digest(seed@ + bytes::utf8("chaperone-agreement-key"@)),
{
    let mut signing = bytes::copy(seed);
    bytes::append(&mut signing, "chaperone-signing-key".as_bytes());
    let mut agreement = bytes::copy(seed);
    bytes::append(&mut agreement, "chaperone-agreement-key".as_bytes());
    (crypto::sha256(&signing), crypto::sha256(&agreement))
}

/// The public key that `did_key` names.
pub fn did_key_to_bytes(did_key: &str) -> (result: Result<[u8; 32], IdentityError>)
    ensures
        result matches Ok(pubkey) ==> did_key::did_key_outcome(did_key@) == Ok::<
            Seq<u8>,
            Seq<char>,
        >(pubkey@),
        result matches Err(error) ==> {
            &&& did_key::did_key_outcome(did_key@) matches Err(message)
            &&& error@ == IdentityFault::CorruptExistingIdentity(message)
        },
{
    match did_key::parse_did_key(did_key) {
        Ok(pubkey) => Ok(pubkey),
        Err(message) => Err(IdentityError::CorruptExistingIdentity(message)),
    }
}

/// Who the user of this machine is, without any private part.
#[derive(Debug, Clone)]
pub struct LocalIdentity {
    pub did_key: String,
    pub created_at: u64,
    pub rotation_epoch: u32,
}

/// A `LocalIdentity` by the text that it holds.
pub struct Profile {
    pub did_key: Seq<char>,
    pub created_at: u64,
    pub rotation_epoch: u32,
}

impl View for LocalIdentity {
    type V = Profile;

    open spec fn view(&self) -> Profile {
        Profile {
            did_key: self.did_key@,
            created_at: self.created_at,
            rotation_epoch: self.rotation_epoch,
        }
    }
}

/// A result by what it holds, with an error by its text.
pub open spec fn identity_outcome(result: Result<LocalIdentity, IdentityError>) -> Result<
    Profile,
    IdentityFault,
> {
    match result {
        Ok(identity) => Ok(identity@),
        Err(error) => Err(error@),
    }
}

/// A result by what it holds, with an error by its text.
pub open spec fn key_outcome(result: Result<[u8; 32], IdentityError>) -> Result<
    Seq<u8>,
    IdentityFault,
> {
    match result {
        Ok(key) => Ok(key@),
        Err(error) => Err(error@),
    }
}

/// The 32 bytes that `stored` holds in base58; `complaint` is what is said of another length.
pub open spec fn stored_key_outcome(stored: Seq<char>, complaint: Seq<char>) -> Result<
    Seq<u8>,
    IdentityFault,
> {
    if !base58::is_base58(stored) {
        Err(IdentityFault::CorruptExistingIdentity(base58::base58_complaint(stored)))
    } else if base58::base58_bytes(stored).len() != 32 {
        Err(IdentityFault::CorruptExistingIdentity(complaint))
    } else {
        Ok(base58::base58_bytes(stored))
    }
}

/// The 32 bytes that `stored` holds in base58.
pub fn parse_stored_key(stored: &str, complaint: &str) -> (result: Result<[u8; 32], IdentityError>)
    ensures
        key_outcome(result) == stored_key_outcome(stored@, complaint@),
        result matches Ok(key) ==> stored@ == base58::base58_text(key@),
        result is Err <==> !base58::is_base58(stored@) || base58::base58_bytes(stored@).len() != 32,
{
    let decoded = match base58::base58_decode(stored) {
        Ok(decoded) => decoded,
        Err(message) => return Err(IdentityError::CorruptExistingIdentity(message)),
    };
    proof {
        base58::base58_reads_one_text(stored@);
    }
    match bytes::exact_array(&decoded) {
        Some(key) => Ok(key),
        None => Err(IdentityError::CorruptExistingIdentity(complaint.to_owned())),
    }
}

/// The slot holds a key of 32 bytes in base58.
pub open spec fn holds_key(entries: Contents, slot: Slot) -> bool {
    &&& entries.dom().contains(slot)
    &&& base58::is_base58(entries[slot])
    &&& base58::base58_bytes(entries[slot]).len() == 32
}

/// What loading a key from the keychain comes to.
pub open spec fn key_in_slot(
    entries: Contents,
    slot: Slot,
    complaint: Seq<char>,
) -> Result<Seq<u8>, IdentityFault> {
    if entries.dom().contains(slot) {
        stored_key_outcome(entries[slot], complaint)
    } else {
        Err(IdentityFault::NotBootstrapped)
    }
}

/// The time of creation and the rotation epoch as the keychain holds them.
pub open spec fn metadata_text(created_at: u64, rotation_epoch: u32) -> Seq<char> {
    text::decimal_text(created_at as nat) + ","@ + text::decimal_text(rotation_epoch as nat)
}

/// The time of creation and the rotation epoch that `stored` holds.
pub open spec fn metadata_outcome(stored: Seq<char>) -> Result<(u64, u32), IdentityFault> {
    let parts = text::pieces(stored, ',');
    let created_at = text::unsigned_value(parts[0]);
    let rotation_epoch = text::unsigned_value(parts[1]);
    if parts.len() != 2 {
        Err(IdentityFault::CorruptExistingIdentity("Invalid metadata format"@))
    } else if !(text::is_unsigned(parts[0]) && created_at <= u64::MAX) {
        Err(IdentityFault::CorruptExistingIdentity(text::u64_complaint(parts[0])))
    } else if !(text::is_unsigned(parts[1]) && rotation_epoch <= u32::MAX) {
        Err(IdentityFault::CorruptExistingIdentity(text::u32_complaint(parts[1])))
    } else {
        Ok((created_at as u64, rotation_epoch as u32))
    }
}

/// The time of creation and the rotation epoch as the keychain holds them.
pub fn format_metadata(created_at: u64, rotation_epoch: u32) -> (stored: String)
    ensures
        stored@ == metadata_text(created_at, rotation_epoch),
{
    let mut stored = String::new();
    text::push_number(&mut stored, created_at, 10);
    stored.append(",");
    text::push_number(&mut stored, rotation_epoch as u64, 10);
    assert(stored@ =~= metadata_text(created_at, rotation_epoch));
    stored
}

/// The time of creation and the rotation epoch that `stored` holds.
pub fn parse_metadata(stored: &str) -> (result: Result<(u64, u32), IdentityError>)
    ensures
        result matches Ok(metadata) ==> metadata_outcome(stored@) == Ok::<
            (u64, u32),
            IdentityFault,
        >(metadata),
        result matches Err(error) ==> metadata_outcome(stored@) == Err::<
            (u64, u32),
            IdentityFault,
        >(error@),
{
    let parts = text::split(stored, ',');
    let ghost pieces = text::contents(parts@);
    if parts.len() != 2 {
        return Err(IdentityError::CorruptExistingIdentity("Invalid metadata format".to_owned()));
    }
    assert(pieces[0] == parts@[0]@ && pieces[1] == parts@[1]@);
    let created_at: u64 = match text::parse_u64(&parts[0]) {
        Ok(number) => number,
        Err(message) => return Err(IdentityError::CorruptExistingIdentity(message)),
    };
    let rotation_epoch: u32 = match text::parse_u32(&parts[1]) {
        Ok(number) => number,
        Err(message) => return Err(IdentityError::CorruptExistingIdentity(message)),
    };
    Ok((created_at, rotation_epoch))
}

/// What is written of the time of creation and the rotation epoch is read back.
pub proof fn metadata_round_trip(created_at: u64, rotation_epoch: u32)
    ensures
        metadata_outcome(metadata_text(created_at, rotation_epoch)) == Ok::<
            (u64, u32),
            IdentityFault,
        >((created_at, rotation_epoch)),
{
    let first = text::decimal_text(created_at as nat);
    let second = text::decimal_text(rotation_epoch as nat);
    let stored = metadata_text(created_at, rotation_epoch);
    text::lemma_decimal_round_trip(created_at as nat);
    text::lemma_decimal_round_trip(rotation_epoch as nat);
    reveal_strlit(",");
    assert(!first.contains(','));
    assert(!second.contains(','));
    assert(stored =~= first.push(',') + second);
    text::lemma_first_piece(first, ',', second);
    text::lemma_single_piece(second, ',');
    let parts = text::pieces(stored, ',');
    assert(parts =~= seq![first, second]);
    assert(parts[0] == first && parts[1] == second);
}

/// The identity that a keychain holds, or what is wrong: first with the signing key, then with
/// the metadata.
pub open spec fn current_outcome(entries: Contents) -> Result<Profile, IdentityFault> {
    match key_in_slot(entries, signing_slot(), "Invalid signing key length"@) {
        Err(fault) => Err(fault),
        Ok(signing) => if !entries.dom().contains(metadata_slot()) {
            Err(IdentityFault::NotBootstrapped)
        } else {
            match metadata_outcome(entries[metadata_slot()]) {
                Err(fault) => Err(fault),
                Ok((created_at, rotation_epoch)) => Ok(
                    Profile {
                        did_key: did_key::did_key_text(crypto::ed25519_public(signing)),
                        created_at,
                        rotation_epoch,
                    },
                ),
            }
        },
    }
}

/// The entries of a keychain with the two private keys in it.
pub open spec fn with_keys(
    entries: Contents,
    signing: Seq<u8>,
    agreement: Seq<u8>,
) -> Contents {
    entries.insert(signing_slot(), base58::base58_text(signing)).insert(
        agreement_slot(),
        base58::base58_text(agreement),
    )
}

/// The entries of a keychain with the two private keys and the metadata in it.
pub open spec fn with_identity(
    entries: Contents,
    signing: Seq<u8>,
    agreement: Seq<u8>,
    created_at: u64,
) -> Contents {
    with_keys(entries, signing, agreement).insert(metadata_slot(), metadata_text(created_at, 0))
}

/// The identity of a seed that the operating system gave was put into the keychain, at a time that
/// the clock told.
pub open spec fn fresh_identity(before: Contents, after: Contents, created_at: u64) -> bool {
    &&& clock::clock_told(Ok::<u64, String>(created_at))
    &&& exists|seed: [u8; 32]| #[trigger]
        entropy::os_gave(seed) && after == with_identity(
            before,
            signing_seed(seed@),
            agreement_seed(seed@),
            created_at,
        )
}

/// The keys of a seed that the operating system gave were put into the keychain, and nothing
/// else.
pub open spec fn fresh_keys(before: Contents, after: Contents) -> bool {
    exists|seed: [u8; 32]| #[trigger]
        entropy::os_gave(seed) && after == with_keys(
            before,
            signing_seed(seed@),
            agreement_seed(seed@),
        )
}

/// The identity that was put into a keychain is the current one, and both keys load.
pub proof fn stored_identity_is_current(
    entries: Contents,
    signing: Seq<u8>,
    agreement: Seq<u8>,
    created_at: u64,
)
    requires
        signing.len() == 32,
        agreement.len() == 32,
    ensures
        current_outcome(with_identity(entries, signing, agreement, created_at)) == Ok::<
            Profile,
            IdentityFault,
        >(
            (Profile {
                did_key: did_key::did_key_text(crypto::ed25519_public(signing)),
                created_at,
                rotation_epoch: 0,
            }),
        ),
        key_in_slot(
            with_identity(entries, signing, agreement, created_at),
            agreement_slot(),
            "Invalid agreement key length"@,
        ) == Ok::<Seq<u8>, IdentityFault>(agreement),
        holds_key(with_identity(entries, signing, agreement, created_at), signing_slot()),
        holds_key(with_identity(entries, signing, agreement, created_at), agreement_slot()),
{
    slots_differ();
    base58::base58_round_trip(signing);
    base58::base58_round_trip(agreement);
    metadata_round_trip(created_at, 0);
}

/// `result` is the key that an answer of the keychain gives; its error is handed on as it came.
pub open spec fn gives_key(
    answer: Result<String, IdentityError>,
    complaint: Seq<char>,
    result: Result<[u8; 32], IdentityError>,
) -> bool {
    match answer {
        Ok(stored) => key_outcome(result) == stored_key_outcome(stored@, complaint),
        Err(error) => result == Err::<[u8; 32], IdentityError>(error),
    }
}

/// The key that an answer of the keychain gives. What went wrong in the keychain is handed on as
/// it came.
pub fn key_from(answer: Result<String, IdentityError>, complaint: &str) -> (result: Result<
    [u8; 32],
    IdentityError,
>)
    ensures
        gives_key(answer, complaint@, result),
{
    match answer {
        Ok(stored) => parse_stored_key(&stored, complaint),
        Err(error) => Err(error),
    }
}

/// `result` is the identity of a signing key and of the metadata that an answer of the keychain
/// gives; its error is handed on as it came.
pub open spec fn gives_identity(
    signing: Seq<u8>,
    answer: Result<String, IdentityError>,
    result: Result<LocalIdentity, IdentityError>,
) -> bool {
    match answer {
        Ok(stored) => identity_outcome(result) == match metadata_outcome(stored@) {
            Ok((created_at, rotation_epoch)) => Ok(
                Profile {
                    did_key: did_key::did_key_text(crypto::ed25519_public(signing)),
                    created_at,
                    rotation_epoch,
                },
            ),
            Err(fault) => Err(fault),
        },
        Err(error) => result == Err::<LocalIdentity, IdentityError>(error),
    }
}

/// The identity of a signing key and of the metadata that an answer of the keychain gives. What
/// went wrong in the keychain is handed on as it came.
pub fn identity_from(signing: &[u8; 32], answer: Result<String, IdentityError>) -> (result: Result<
    LocalIdentity,
    IdentityError,
>)
    ensures
        gives_identity(signing@, answer, result),
{
    let stored = match answer {
        Ok(stored) => stored,
        Err(error) => return Err(error),
    };
    let did_key = did_key::bytes_to_did_key(&crypto::ed25519_public_key(signing));
    match parse_metadata(&stored) {
        Ok((created_at, rotation_epoch)) => Ok(
            LocalIdentity { did_key, created_at, rotation_epoch },
        ),
        Err(error) => Err(error),
    }
}

/// `result` is the key that the keychain's answer for the slot gives.
pub open spec fn loads_key<K: KeychainBackend>(
    keychain: &K,
    slot: Slot,
    complaint: Seq<char>,
    result: Result<[u8; 32], IdentityError>,
) -> bool {
    exists|answer: Result<String, IdentityError>| #[trigger]
        keychain::answers(keychain, slot, answer) && gives_key(answer, complaint, result)
}

/// `result` is what the keychain's answers give: that for the signing key and, where there is one,
/// that for the metadata.
pub open spec fn loads_identity<K: KeychainBackend>(
    keychain: &K,
    result: Result<LocalIdentity, IdentityError>,
) -> bool {
    exists|signing: Result<[u8; 32], IdentityError>| #[trigger]
        loads_key(keychain, signing_slot(), "Invalid signing key length"@, signing)
            && match signing {
            Ok(key) => exists|answer: Result<String, IdentityError>| #[trigger]
                keychain::answers(keychain, metadata_slot(), answer) && gives_identity(
                    key@,
                    answer,
                    result,
                ),
            Err(error) => result == Err::<LocalIdentity, IdentityError>(error),
        }
}

/// Loads the text that is kept for a service.
fn load<K: KeychainBackend>(keychain: &K, service: &str) -> (result: Result<String, IdentityError>)
    ensures
        keychain::answers(keychain, (service@, user()), result),
        result matches Ok(stored) ==> {
            &&& keychain.entries().dom().contains((service@, user()))
            &&& keychain.entries()[(service@, user())] == stored@
        },
        keychain.dependable() && result is Err ==> !keychain.entries().dom().contains(
            (service@, user()),
        ) && result->Err_0@ == IdentityFault::NotBootstrapped,
{
    let username = "default";
    let result = keychain.get_password(service, username);
    assert(call_ensures(K::get_password, (keychain, service, username), result));
    result
}

/// Keeps a text for a service.
fn keep<K: KeychainBackend>(keychain: &mut K, service: &str, stored: &str) -> (result: Result<
    (),
    IdentityError,
>)
    ensures
        keychain::keeps(*old(keychain), (service@, user()), stored@, result),
        final(keychain).dependable() == old(keychain).dependable(),
        result is Ok ==> final(keychain).entries() == old(keychain).entries().insert(
            (service@, user()),
            stored@,
        ),
        old(keychain).dependable() ==> result is Ok,
{
    let username = "default";
    keychain.set_password(service, username, stored)
}

/// The keychain, as it was before, refused one of the two keys with this error.
pub open spec fn refuses_keys<K: KeychainBackend>(
    before: K,
    signing: Seq<u8>,
    agreement: Seq<u8>,
    error: IdentityError,
) -> bool {
    let refused = Err::<(), IdentityError>(error);
    ||| keychain::keeps(before, signing_slot(), base58::base58_text(signing), refused)
    ||| exists|between: K|
        between.entries() == before.entries().insert(signing_slot(), base58::base58_text(signing))
            && #[trigger] keychain::keeps(
            between,
            agreement_slot(),
            base58::base58_text(agreement),
            refused,
        )
}

/// Making the identity of a seed in a keychain where no signing key was found failed with this
/// error: the keychain refused a key, the clock stands before the Unix epoch, or the keychain
/// refused the metadata.
pub open spec fn bootstrap_fault<K: KeychainBackend>(
    before: K,
    seed: Seq<u8>,
    error: IdentityError,
) -> bool {
    let signing = signing_seed(seed);
    let agreement = agreement_seed(seed);
    ||| refuses_keys(before, signing, agreement, error)
    ||| error matches IdentityError::CorruptExistingIdentity(message) && clock::clock_told(
        Err::<u64, String>(message),
    )
    ||| exists|between: K, created_at: u64|
        between.entries() == with_keys(before.entries(), signing, agreement) && clock::clock_told(
            Ok::<u64, String>(created_at),
        ) && #[trigger] keychain::keeps(
            between,
            metadata_slot(),
            metadata_text(created_at, 0),
            Err::<(), IdentityError>(error),
        )
}

/// Loads a private key.
fn load_key<K: KeychainBackend>(keychain: &K, service: &str, complaint: &str) -> (result: Result<
    [u8; 32],
    IdentityError,
>)
    ensures
        loads_key(keychain, (service@, user()), complaint@, result),
        result matches Ok(key) ==> key_in_slot(
            keychain.entries(),
            (service@, user()),
            complaint@,
        ) == Ok::<Seq<u8>, IdentityFault>(key@),
        keychain.dependable() ==> key_outcome(result) == key_in_slot(
            keychain.entries(),
            (service@, user()),
            complaint@,
        ),
{
    let answer = load(keychain, service);
    key_from(answer, complaint)
}

impl LocalIdentity {
    /// The identity in words.
    pub fn display_text(&self) -> (text: String)
        ensures
            text@ == "LocalIdentity { did_key: "@ + self.did_key@ + ", created_at: "@
                + text::decimal_text(self.created_at as nat) + ", rotation_epoch: "@
                + text::decimal_text(self.rotation_epoch as nat) + " }"@,
    {
        let mut text = "LocalIdentity { did_key: ".to_owned();
        text.append(&self.did_key);
        text.append(", created_at: ");
        text::push_number(&mut text, self.created_at, 10);
        text.append(", rotation_epoch: ");
        text::push_number(&mut text, self.rotation_epoch as u64, 10);
        text.append(" }");
        text
    }

    /// Puts the keys that `seed` gives into the keychain, unless `lookup`, which is what it
    /// answered for the signing key, found one; gives the name of the public key.
    pub fn store_keys_unless<K: KeychainBackend>(
        lookup: Result<String, IdentityError>,
        keychain: &mut K,
        seed: &[u8; 32],
    ) -> (result: Result<String, IdentityError>)
        ensures
            final(keychain).dependable() == old(keychain).dependable(),
            lookup is Ok ==> {
                &&& result matches Err(IdentityError::AlreadyBootstrapped)
                &&& *final(keychain) == *old(keychain)
            },
            lookup is Err && old(keychain).dependable() ==> result is Ok,
            lookup is Err ==> (result matches Err(error) ==> refuses_keys(
                *old(keychain),
                signing_seed(seed@),
                agreement_seed(seed@),
                error,
            )),
            result matches Ok(did_key) ==> {
                &&& did_key@ == did_key::did_key_text(crypto::ed25519_public(signing_seed(seed@)))
                &&& text::has_prefix(did_key@, "did:key:z6Mk"@)
                &&& did_key::is_did_key(did_key@)
                &&& signing_seed(seed@).len() == 32
                &&& agreement_seed(seed@).len() == 32
                &&& final(keychain).entries() == with_keys(
                    old(keychain).entries(),
                    signing_seed(seed@),
                    agreement_seed(seed@),
                )
            },
    {
        if lookup.is_ok() {
            return Err(IdentityError::AlreadyBootstrapped);
        }
        let (signing_seed, agreement_seed) = derive_seeds(seed);
        let public = crypto::ed25519_public_key(&signing_seed);
        let did_key = did_key::bytes_to_did_key(&public);
        proof {
            did_key::did_key_starts_with_z6mk(public@);
            did_key::did_key_round_trip(public@);
        }
        let signing_b58 = base58::base58_encode(&signing_seed);
        let agreement_b58 = base58::base58_encode(&agreement_seed);
        match keep(keychain, "chaperone-signing-key", &signing_b58) {
            Ok(_) => {},
            Err(error) => return Err(error),
        }
        let ghost between = *keychain;
        match keep(keychain, "chaperone-agreement-key", &agreement_b58) {
            Ok(_) => {},
            Err(error) => {
                assert(keychain::keeps(
                    between,
                    agreement_slot(),
                    base58::base58_text(agreement_seed@),
                    Err::<(), IdentityError>(error),
                ));
                return Err(error);
            },
        }
        Ok(did_key)
    }

    /// Puts the keys that `seed` gives into the keychain, unless it finds a signing key there, and
    /// gives the name of the public one.
    pub fn store_keys<K: KeychainBackend>(keychain: &mut K, seed: &[u8; 32]) -> (result: Result<
        String,
        IdentityError,
    >)
        ensures
            final(keychain).dependable() == old(keychain).dependable(),
            exists|lookup: Result<String, IdentityError>| #[trigger]
                keychain::answers(&*old(keychain), signing_slot(), lookup) && (if lookup is Ok {
                    &&& result matches Err(IdentityError::AlreadyBootstrapped)
                    &&& *final(keychain) == *old(keychain)
                } else {
                    result matches Err(error) ==> refuses_keys(
                        *old(keychain),
                        signing_seed(seed@),
                        agreement_seed(seed@),
                        error,
                    )
                }),
            result matches Ok(did_key) ==> {
                &&& did_key@ == did_key::did_key_text(crypto::ed25519_public(signing_seed(seed@)))
                &&& text::has_prefix(did_key@, "did:key:z6Mk"@)
                &&& did_key::is_did_key(did_key@)
                &&& signing_seed(seed@).len() == 32
                &&& agreement_seed(seed@).len() == 32
                &&& final(keychain).entries() == with_keys(
                    old(keychain).entries(),
                    signing_seed(seed@),
                    agreement_seed(seed@),
                )
            },
            old(keychain).dependable() ==> {
                &&& result is Ok <==> !old(keychain).entries().dom().contains(signing_slot())
                &&& result matches Err(error) ==> {
                    &&& error is AlreadyBootstrapped
                    &&& *final(keychain) == *old(keychain)
                }
            },
    {
        let lookup = load(&*keychain, "chaperone-signing-key");
        assert(keychain::answers(&*old(keychain), signing_slot(), lookup));
        Self::store_keys_unless(lookup, keychain, seed)
    }

    /// Puts the metadata of a new identity into the keychain. `now` is what the clock says.
    pub fn record_creation<K: KeychainBackend>(
        keychain: &mut K,
        did_key: String,
        now: Result<u64, String>,
    ) -> (result: Result<LocalIdentity, IdentityError>)
        ensures
            final(keychain).dependable() == old(keychain).dependable(),
            result matches Ok(identity) ==> {
                &&& now matches Ok(created_at)
                &&& identity.created_at == created_at
                &&& identity.did_key == did_key
                &&& identity.rotation_epoch == 0
                &&& final(keychain).entries() == old(keychain).entries().insert(
                    metadata_slot(),
                    metadata_text(created_at, 0),
                )
            },
            now matches Err(message) ==> {
                &&& *final(keychain) == *old(keychain)
                &&& result == Err::<LocalIdentity, IdentityError>(
                    IdentityError::CorruptExistingIdentity(message),
                )
            },
            old(keychain).dependable() && now is Ok ==> result is Ok,
            now matches Ok(created_at) ==> (result matches Err(error) ==> keychain::keeps(
                *old(keychain),
                metadata_slot(),
                metadata_text(created_at, 0),
                Err::<(), IdentityError>(error),
            )),
    {
        let created_at: u64 = match now {
            Ok(created_at) => created_at,
            Err(message) => return Err(IdentityError::CorruptExistingIdentity(message)),
        };
        let metadata = format_metadata(created_at, 0);
        match keep(keychain, "chaperone-identity-metadata", &metadata) {
            Ok(_) => Ok(LocalIdentity { did_key, created_at, rotation_epoch: 0 }),
            Err(error) => Err(error),
        }
    }

    /// Makes the identity that `seed` gives, and keeps it in the keychain. It fails where there
    /// is one already, where the keychain fails and where the clock stands before the Unix
    /// epoch; in that case the keys are in the keychain already, and stay there.
    pub fn bootstrap_with_seed<K: KeychainBackend>(keychain: &mut K, seed: [u8; 32]) -> (result:
        Result<LocalIdentity, IdentityError>)
        ensures
            exists|lookup: Result<String, IdentityError>| #[trigger]
                keychain::answers(&*old(keychain), signing_slot(), lookup) && (if lookup is Ok {
                    &&& result matches Err(IdentityError::AlreadyBootstrapped)
                    &&& *final(keychain) == *old(keychain)
                } else {
                    result matches Err(error) ==> bootstrap_fault(*old(keychain), seed@, error)
                }),
            final(keychain).dependable() == old(keychain).dependable(),
            result matches Ok(identity) ==> {
                &&& identity.did_key@ == did_key::did_key_text(
                    crypto::ed25519_public(signing_seed(seed@)),
                )
                &&& text::has_prefix(identity.did_key@, "did:key:z6Mk"@)
                &&& did_key::is_did_key(identity.did_key@)
                &&& identity.rotation_epoch == 0
                &&& clock::clock_told(Ok::<u64, String>(identity.created_at))
                &&& final(keychain).entries() == with_identity(
                    old(keychain).entries(),
                    signing_seed(seed@),
                    agreement_seed(seed@),
                    identity.created_at,
                )
                &&& current_outcome(final(keychain).entries()) == Ok::<Profile, IdentityFault>(
                    identity@,
                )
                &&& holds_key(final(keychain).entries(), signing_slot())
                &&& holds_key(final(keychain).entries(), agreement_slot())
            },
            old(keychain).dependable() && old(keychain).entries().dom().contains(signing_slot())
                ==> (result matches Err(IdentityError::AlreadyBootstrapped) && *final(keychain)
                == *old(keychain)),
            old(keychain).dependable() && !old(keychain).entries().dom().contains(signing_slot())
                ==> (result matches Err(error) ==> {
                &&& error matches IdentityError::CorruptExistingIdentity(message)
                &&& clock::clock_told(Err::<u64, String>(message))
                &&& final(keychain).entries() == with_keys(
                    old(keychain).entries(),
                    signing_seed(seed@),
                    agreement_seed(seed@),
                )
            }),
    {
        let did_key = match Self::store_keys(keychain, &seed) {
            Ok(did_key) => did_key,
            Err(error) => return Err(error),
        };
        let ghost entries = old(keychain).entries();
        let now = clock::unix_time();
        let result = Self::record_creation(keychain, did_key, now);
        proof {
            if result is Ok {
                stored_identity_is_current(
                    entries,
                    signing_seed(seed@),
                    agreement_seed(seed@),
                    result->Ok_0.created_at,
                );
            }
        }
        result
    }

    /// Makes an identity from a random seed, and keeps it in the keychain.
    pub fn bootstrap<K: KeychainBackend>(keychain: &mut K) -> (result: Result<
        LocalIdentity,
        IdentityError,
    >)
        ensures
            exists|lookup: Result<String, IdentityError>| #[trigger]
                keychain::answers(&*old(keychain), signing_slot(), lookup) && (if lookup is Ok {
                    &&& result matches Err(IdentityError::AlreadyBootstrapped)
                    &&& *final(keychain) == *old(keychain)
                } else {
                    result matches Err(error) ==> exists|seed: [u8; 32]| #[trigger]
                        entropy::os_gave(seed) && bootstrap_fault(*old(keychain), seed@, error)
                }),
            final(keychain).dependable() == old(keychain).dependable(),
            result matches Ok(identity) ==> {
                &&& text::has_prefix(identity.did_key@, "did:key:z6Mk"@)
                &&& did_key::is_did_key(identity.did_key@)
                &&& identity.rotation_epoch == 0
                &&& fresh_identity(
                    old(keychain).entries(),
                    final(keychain).entries(),
                    identity.created_at,
                )
                &&& current_outcome(final(keychain).entries()) == Ok::<Profile, IdentityFault>(
                    identity@,
                )
                &&& holds_key(final(keychain).entries(), signing_slot())
                &&& holds_key(final(keychain).entries(), agreement_slot())
            },
            old(keychain).dependable() && old(keychain).entries().dom().contains(signing_slot())
                ==> (result matches Err(IdentityError::AlreadyBootstrapped) && *final(keychain)
                == *old(keychain)),
            old(keychain).dependable() && !old(keychain).entries().dom().contains(signing_slot())
                ==> (result matches Err(error) ==> {
                &&& error matches IdentityError::CorruptExistingIdentity(message)
                &&& clock::clock_told(Err::<u64, String>(message))
                &&& fresh_keys(old(keychain).entries(), final(keychain).entries())
            }),
    {
        let seed: [u8; 32] = entropy::os_draw();
        Self::bootstrap_with_seed(keychain, seed)
    }

    /// The identity that the keychain holds.
    pub fn get_current<K: KeychainBackend>(keychain: &K) -> (result: Result<
        LocalIdentity,
        IdentityError,
    >)
        ensures
            loads_identity(keychain, result),
            result matches Ok(identity) ==> current_outcome(keychain.entries()) == Ok::<
                Profile,
                IdentityFault,
            >(identity@),
            keychain.dependable() ==> identity_outcome(result) == current_outcome(
                keychain.entries(),
            ),
    {
        let loaded = load_key(keychain, "chaperone-signing-key", "Invalid signing key length");
        let ghost signing = loaded;
        let key = match loaded {
            Ok(key) => key,
            Err(error) => {
                assert(loads_key(
                    keychain,
                    signing_slot(),
                    "Invalid signing key length"@,
                    signing,
                ));
                return Err(error);
            },
        };
        let answer = load(keychain, "chaperone-identity-metadata");
        identity_from(&key, answer)
    }

    /// The private agreement key.
    pub fn load_agreement_key<K: KeychainBackend>(&self, keychain: &K) -> (result: Result<
        [u8; 32],
        IdentityError,
    >)
        ensures
            loads_key(keychain, agreement_slot(), "Invalid agreement key length"@, result),
            result matches Ok(key) ==> key_in_slot(
                keychain.entries(),
                agreement_slot(),
                "Invalid agreement key length"@,
            ) == Ok::<Seq<u8>, IdentityFault>(key@),
            keychain.dependable() ==> key_outcome(result) == key_in_slot(
                keychain.entries(),
                agreement_slot(),
                "Invalid agreement key length"@,
            ),
    {
        load_key(keychain, "chaperone-agreement-key", "Invalid agreement key length")
    }

    /// The private signed prekey.
    pub fn load_signed_prekey<K: KeychainBackend>(&self, keychain: &K) -> (result: Result<
        [u8; 32],
        IdentityError,
    >)
        ensures
            loads_key(keychain, prekey_slot(), "Invalid signed prekey length"@, result),
            result matches Ok(key) ==> key_in_slot(
                keychain.entries(),
                prekey_slot(),
                "Invalid signed prekey length"@,
            ) == Ok::<Seq<u8>, IdentityFault>(key@),
            keychain.dependable() ==> key_outcome(result) == key_in_slot(
                keychain.entries(),
                prekey_slot(),
                "Invalid signed prekey length"@,
            ),
    {
        load_key(keychain, "chaperone-signed-prekey", "Invalid signed prekey length")
    }

    /// The public agreement key.
    pub fn public_agreement_key<K: KeychainBackend>(&self, keychain: &K) -> (result: Result<
        [u8; 32],
        IdentityError,
    >)
        ensures
            exists|loaded: Result<[u8; 32], IdentityError>| #[trigger]
                loads_key(keychain, agreement_slot(), "Invalid agreement key length"@, loaded)
                    && match loaded {
                    Ok(key) => result matches Ok(public) && public@ == crypto::x25519_public(key@),
                    Err(error) => result == Err::<[u8; 32], IdentityError>(error),
                },
            result matches Ok(public) ==> {
                &&& holds_key(keychain.entries(), agreement_slot())
                &&& public@ == crypto::x25519_public(
                    base58::base58_bytes(keychain.entries()[agreement_slot()]),
                )
            },
            keychain.dependable() ==> {
                &&& result is Ok <==> holds_key(keychain.entries(), agreement_slot())
                &&& result matches Err(error) ==> key_in_slot(
                    keychain.entries(),
                    agreement_slot(),
                    "Invalid agreement key length"@,
                ) == Err::<Seq<u8>, IdentityFault>(error@)
            },
    {
        match self.load_agreement_key(keychain) {
            Ok(key) => Ok(crypto::x25519_public_key(&key)),
            Err(error) => Err(error),
        }
    }

    /// Keeps `prekey` in the keychain, and gives its public key with a signature over it.
    pub fn save_signed_prekey<K: KeychainBackend>(&self, keychain: &mut K, prekey: &[u8; 32]) -> (
    result: Result<([u8; 32], [u8; 64]), IdentityError>)
        ensures
            exists|loaded: Result<[u8; 32], IdentityError>| #[trigger]
                loads_key(
                    &*old(keychain),
                    signing_slot(),
                    "Invalid signing key length"@,
                    loaded,
                ) && match loaded {
                    Err(error) => {
                        &&& result == Err::<([u8; 32], [u8; 64]), IdentityError>(error)
                        &&& *final(keychain) == *old(keychain)
                    },
                    Ok(_) => result matches Err(error) ==> keychain::keeps(
                        *old(keychain),
                        prekey_slot(),
                        base58::base58_text(prekey@),
                        Err::<(), IdentityError>(error),
                    ),
                },
            final(keychain).dependable() == old(keychain).dependable(),
            result matches Ok((public, signature)) ==> {
                &&& holds_key(old(keychain).entries(), signing_slot())
                &&& public@ == crypto::x25519_public(prekey@)
                &&& signature@ == crypto::ed25519_signature(
                    base58::base58_bytes(old(keychain).entries()[signing_slot()]),
                    public@,
                )
                &&& crypto::ed25519_fault(
                    crypto::ed25519_public(
                        base58::base58_bytes(old(keychain).entries()[signing_slot()]),
                    ),
                    public@,
                    signature@,
                ) is None
                &&& final(keychain).entries() == old(keychain).entries().insert(
                    prekey_slot(),
                    base58::base58_text(prekey@),
                )
                &&& key_in_slot(
                    final(keychain).entries(),
                    prekey_slot(),
                    "Invalid signed prekey length"@,
                ) == Ok::<Seq<u8>, IdentityFault>(prekey@)
            },
            old(keychain).dependable() ==> {
                &&& result is Ok <==> holds_key(old(keychain).entries(), signing_slot())
                &&& result matches Err(error) ==> {
                    &&& key_in_slot(
                        old(keychain).entries(),
                        signing_slot(),
                        "Invalid signing key length"@,
                    ) == Err::<Seq<u8>, IdentityFault>(error@)
                    &&& *final(keychain) == *old(keychain)
                }
            },
    {
        let signing = match load_key(
            &*keychain,
            "chaperone-signing-key",
            "Invalid signing key length",
        ) {
            Ok(signing) => signing,
            Err(error) => return Err(error),
        };
        let public = crypto::x25519_public_key(prekey);
        let signature = crypto::ed25519_sign(&signing, &public);
        let stored = base58::base58_encode(prekey);
        proof {
            base58::base58_round_trip(prekey@);
        }
        match keep(keychain, "chaperone-signed-prekey", &stored) {
            Ok(_) => Ok((public, signature)),
            Err(error) => Err(error),
        }
    }

    /// Makes a random prekey and keeps it in the keychain; gives its public key with a signature
    /// over it.
    pub fn generate_and_save_signed_prekey<K: KeychainBackend>(&self, keychain: &mut K) -> (result:
        Result<([u8; 32], [u8; 64]), IdentityError>)
        ensures
            exists|loaded: Result<[u8; 32], IdentityError>| #[trigger]
                loads_key(
                    &*old(keychain),
                    signing_slot(),
                    "Invalid signing key length"@,
                    loaded,
                ) && match loaded {
                    Err(error) => {
                        &&& result == Err::<([u8; 32], [u8; 64]), IdentityError>(error)
                        &&& *final(keychain) == *old(keychain)
                    },
                    Ok(_) => result matches Err(error) ==> exists|prekey: [u8; 32]| #[trigger]
                        entropy::os_gave(prekey) && keychain::keeps(
                            *old(keychain),
                            prekey_slot(),
                            base58::base58_text(prekey@),
                            Err::<(), IdentityError>(error),
                        ),
                },
            final(keychain).dependable() == old(keychain).dependable(),
            result matches Ok((public, signature)) ==> {
                &&& holds_key(old(keychain).entries(), signing_slot())
                &&& holds_key(final(keychain).entries(), prekey_slot())
                &&& public@ == crypto::x25519_public(
                    base58::base58_bytes(final(keychain).entries()[prekey_slot()]),
                )
                &&& signature@ == crypto::ed25519_signature(
                    base58::base58_bytes(old(keychain).entries()[signing_slot()]),
                    public@,
                )
                &&& crypto::ed25519_fault(
                    crypto::ed25519_public(
                        base58::base58_bytes(old(keychain).entries()[signing_slot()]),
                    ),
                    public@,
                    signature@,
                ) is None
                &&& exists|prekey: [u8; 32]| #[trigger]
                    entropy::os_gave(prekey) && final(keychain).entries() == old(
                        keychain,
                    ).entries().insert(prekey_slot(), base58::base58_text(prekey@))
            },
            old(keychain).dependable() ==> {
                &&& result is Ok <==> holds_key(old(keychain).entries(), signing_slot())
                &&& result matches Err(error) ==> {
                    &&& key_in_slot(
                        old(keychain).entries(),
                        signing_slot(),
                        "Invalid signing key length"@,
                    ) == Err::<Seq<u8>, IdentityFault>(error@)
                    &&& *final(keychain) == *old(keychain)
                }
            },
    {
        let prekey: [u8; 32] = entropy::os_draw();
        self.save_signed_prekey(keychain, &prekey)
    }
}

/// Each of the two seeds is the hash of the whole seed with a label behind it. No two seeds are
/// hashed alike, and no seed is hashed for the one key as any seed is for the other.
pub proof fn seeds_hash_the_whole_seed(seed: Seq<u8>, other: Seq<u8>)
    requires
        seed.len() == 32,
        other.len() == 32,
    ensures
        signing_seed(seed) == crypto::sha256_digest(
            seed + bytes::utf8("chaperone-signing-key"@),
        ),
        agreement_seed(seed) == crypto::sha256_digest(
            seed + bytes::utf8("chaperone-agreement-key"@),
        ),
        seed + bytes::utf8("chaperone-signing-key"@) == other + bytes::utf8(
            "chaperone-signing-key"@,
        ) ==> seed == other,
        seed + bytes::utf8("chaperone-agreement-key"@) == other + bytes::utf8(
            "chaperone-agreement-key"@,
        ) ==> seed == other,
        seed + bytes::utf8("chaperone-signing-key"@) != other + bytes::utf8(
            "chaperone-agreement-key"@,
        ),
{
    let signing = bytes::utf8("chaperone-signing-key"@);
    let agreement = bytes::utf8("chaperone-agreement-key"@);
    reveal_strlit("chaperone-signing-key");
    reveal_strlit("chaperone-agreement-key");
    vstd::utf8::is_ascii_chars_encode_utf8("chaperone-signing-key"@);
    vstd::utf8::is_ascii_chars_encode_utf8("chaperone-agreement-key"@);
    assert((seed + signing).take(32) =~= seed);
    assert((other + signing).take(32) =~= other);
    assert((seed + agreement).take(32) =~= seed);
    assert((other + agreement).take(32) =~= other);
    assert((seed + signing).len() == 53);
    assert((other + agreement).len() == 55);
}

/// The slots by the names of their services.
pub proof fn slots_have_these_names()
    ensures
        signing_slot() == ("chaperone-signing-key"@, "default"@),
        agreement_slot() == ("chaperone-agreement-key"@, "default"@),
        metadata_slot() == ("chaperone-identity-metadata"@, "default"@),
        prekey_slot() == ("chaperone-signed-prekey"@, "default"@),
{
}

/// A stored text is a key exactly if it is what 32 bytes are written as in base58. Of another
/// number of bytes the complaint is made, and of other characters what base58 says.
pub proof fn stored_key_is_base58_of_32_bytes(
    stored: Seq<char>,
    data: Seq<u8>,
    complaint: Seq<char>,
)
    ensures
        stored_key_outcome(stored, complaint) == Ok::<Seq<u8>, IdentityFault>(data) <==> stored
            == base58::base58_text(data) && data.len() == 32,
        data.len() != 32 ==> stored_key_outcome(base58::base58_text(data), complaint) == Err::<
            Seq<u8>,
            IdentityFault,
        >(IdentityFault::CorruptExistingIdentity(complaint)),
        !base58::is_base58(stored) ==> stored_key_outcome(stored, complaint) == Err::<
            Seq<u8>,
            IdentityFault,
        >(IdentityFault::CorruptExistingIdentity(base58::base58_complaint(stored))),
{
    base58::base58_round_trip(data);
    if base58::is_base58(stored) {
        base58::base58_reads_one_text(stored);
    }
}

/// A slot gives a key exactly if it holds what 32 bytes are written as; an empty slot means that
/// no identity has been bootstrapped.
pub proof fn slot_gives_the_key_it_holds(
    entries: Contents,
    slot: Slot,
    key: Seq<u8>,
    complaint: Seq<char>,
)
    ensures
        key_in_slot(entries, slot, complaint) == Ok::<Seq<u8>, IdentityFault>(key)
            <==> entries.dom().contains(slot) && entries[slot] == base58::base58_text(key)
            && key.len() == 32,
        !entries.dom().contains(slot) ==> key_in_slot(entries, slot, complaint) == Err::<
            Seq<u8>,
            IdentityFault,
        >(IdentityFault::NotBootstrapped),
        entries.dom().contains(slot) && entries[slot] == base58::base58_text(key) && key.len()
            != 32 ==> key_in_slot(entries, slot, complaint) == Err::<Seq<u8>, IdentityFault>(
            IdentityFault::CorruptExistingIdentity(complaint),
        ),
        entries.dom().contains(slot) && !base58::is_base58(entries[slot]) ==> key_in_slot(
            entries,
            slot,
            complaint,
        ) == Err::<Seq<u8>, IdentityFault>(
            IdentityFault::CorruptExistingIdentity(base58::base58_complaint(entries[slot])),
        ),
        entries.dom().contains(slot) && entries[slot] == base58::base58_text(key) ==> (holds_key(
            entries,
            slot,
        ) <==> key.len() == 32),
{
    base58::base58_round_trip(key);
    if entries.dom().contains(slot) {
        stored_key_is_base58_of_32_bytes(entries[slot], key, complaint);
    }
}

/// Metadata is two numbers with a comma between them; the first that is no number of its size is
/// told.
pub proof fn metadata_is_two_numbers(first: Seq<char>, second: Seq<char>)
    requires
        !first.contains(','),
        !second.contains(','),
    ensures
        ({
            let outcome = metadata_outcome(first.push(',') + second);
            if !text::is_unsigned(first) || text::unsigned_value(first) > u64::MAX {
                outcome == Err::<(u64, u32), IdentityFault>(
                    IdentityFault::CorruptExistingIdentity(text::u64_complaint(first)),
                )
            } else if !text::is_unsigned(second) || text::unsigned_value(second) > u32::MAX {
                outcome == Err::<(u64, u32), IdentityFault>(
                    IdentityFault::CorruptExistingIdentity(text::u32_complaint(second)),
                )
            } else {
                outcome matches Ok((created_at, rotation_epoch)) && created_at
                    == text::unsigned_value(first) && rotation_epoch == text::unsigned_value(second)
            }
        }),
        metadata_outcome(first) == Err::<(u64, u32), IdentityFault>(
            IdentityFault::CorruptExistingIdentity("Invalid metadata format"@),
        ),
{
    text::lemma_first_piece(first, ',', second);
    text::lemma_single_piece(first, ',');
    text::lemma_single_piece(second, ',');
    let parts = text::pieces(first.push(',') + second, ',');
    assert(parts =~= seq![first, second]);
    assert(parts[0] == first && parts[1] == second);
}

/// Text with more than one comma is no metadata.
pub proof fn metadata_has_one_comma(first: Seq<char>, second: Seq<char>, rest: Seq<char>)
    requires
        !first.contains(','),
        !second.contains(','),
    ensures
        metadata_outcome(first.push(',') + (second.push(',') + rest)) == Err::<
            (u64, u32),
            IdentityFault,
        >(IdentityFault::CorruptExistingIdentity("Invalid metadata format"@)),
{
    text::lemma_first_piece(first, ',', second.push(',') + rest);
    text::lemma_first_piece(second, ',', rest);
    text::lemma_some_piece(rest, ',');
}

/// The metadata that is stored is the two numbers, written without leading zeros, and a comma.
pub proof fn metadata_text_is_two_numbers(created_at: u64, rotation_epoch: u32)
    ensures
        metadata_text(created_at, rotation_epoch) == text::number_text(created_at as nat, 10).push(
            ',',
        ) + text::number_text(rotation_epoch as nat, 10),
{
    reveal_strlit(",");
    assert(metadata_text(created_at, rotation_epoch) =~= text::number_text(
        created_at as nat,
        10,
    ).push(',') + text::number_text(rotation_epoch as nat, 10));
}

/// The current identity has the name of the public key of the signing key that the keychain
/// holds, and the time and epoch of its metadata.
pub proof fn current_identity_is_the_stored_one(entries: Contents, profile: Profile) -> (signing: Seq<
    u8,
>)
    requires
        current_outcome(entries) == Ok::<Profile, IdentityFault>(profile),
    ensures
        signing.len() == 32,
        entries.dom().contains(("chaperone-signing-key"@, "default"@)),
        entries[("chaperone-signing-key"@, "default"@)] == base58::base58_text(signing),
        profile.did_key == did_key::did_key_text(crypto::ed25519_public(signing)),
        entries.dom().contains(("chaperone-identity-metadata"@, "default"@)),
        metadata_outcome(entries[("chaperone-identity-metadata"@, "default"@)]) == Ok::<
            (u64, u32),
            IdentityFault,
        >((profile.created_at, profile.rotation_epoch)),
{
    let signing = base58::base58_bytes(entries[signing_slot()]);
    base58::base58_reads_one_text(entries[signing_slot()]);
    signing
}

/// What is wrong with a keychain that holds no identity: first with the signing key, then with
/// the metadata.
pub proof fn identity_faults_come_in_order(entries: Contents)
    ensures
        key_in_slot(
            entries,
            ("chaperone-signing-key"@, "default"@),
            "Invalid signing key length"@,
        ) matches Err(fault) ==> current_outcome(entries) == Err::<Profile, IdentityFault>(fault),
        key_in_slot(
            entries,
            ("chaperone-signing-key"@, "default"@),
            "Invalid signing key length"@,
        ) is Ok && !entries.dom().contains(("chaperone-identity-metadata"@, "default"@))
            ==> current_outcome(entries) == Err::<Profile, IdentityFault>(
            IdentityFault::NotBootstrapped,
        ),
        key_in_slot(
            entries,
            ("chaperone-signing-key"@, "default"@),
            "Invalid signing key length"@,
        ) is Ok && entries.dom().contains(("chaperone-identity-metadata"@, "default"@)) ==> (
        metadata_outcome(entries[("chaperone-identity-metadata"@, "default"@)]) matches Err(fault)
            ==> current_outcome(entries) == Err::<Profile, IdentityFault>(fault)),
        key_in_slot(
            entries,
            ("chaperone-signing-key"@, "default"@),
            "Invalid signing key length"@,
        ) is Ok && entries.dom().contains(("chaperone-identity-metadata"@, "default"@))
            && metadata_outcome(entries[("chaperone-identity-metadata"@, "default"@)]) is Ok
            ==> current_outcome(entries) is Ok,
{
}

/// Putting an identity into a keychain fills three slots, each with its own text, and leaves every
/// other slot as it was.
pub proof fn identity_fills_three_slots(
    entries: Contents,
    signing: Seq<u8>,
    agreement: Seq<u8>,
    created_at: u64,
    other: Slot,
)
    ensures
        ({
            let keys = with_keys(entries, signing, agreement);
            let all = with_identity(entries, signing, agreement, created_at);
            &&& keys[("chaperone-signing-key"@, "default"@)] == base58::base58_text(signing)
            &&& keys[("chaperone-agreement-key"@, "default"@)] == base58::base58_text(agreement)
            &&& keys.dom().contains(("chaperone-signing-key"@, "default"@))
            &&& keys.dom().contains(("chaperone-agreement-key"@, "default"@))
            &&& other != ("chaperone-signing-key"@, "default"@) && other != (
                "chaperone-agreement-key"@,
                "default"@,
            ) ==> keys.dom().contains(other) == entries.dom().contains(other) && keys[other]
                == entries[other]
            &&& all[("chaperone-identity-metadata"@, "default"@)] == text::number_text(
                created_at as nat,
                10,
            ) + ",0"@
            &&& all.dom().contains(("chaperone-identity-metadata"@, "default"@))
            &&& other != ("chaperone-identity-metadata"@, "default"@) ==> all.dom().contains(other)
                == keys.dom().contains(other) && all[other] == keys[other]
        }),
{
    slots_differ();
    reveal_strlit(",");
    reveal_strlit(",0");
    assert(metadata_text(created_at, 0) =~= text::number_text(created_at as nat, 10) + ",0"@);
}

/// A fresh identity comes from a seed that the operating system gave, and from the whole of it.
pub proof fn fresh_identity_has_a_drawn_seed(before: Contents, after: Contents, created_at: u64) -> (
    seed: [u8; 32])
    requires
        fresh_identity(before, after, created_at),
    ensures
        entropy::os_gave(seed),
        clock::clock_told(Ok::<u64, String>(created_at)),
        after[("chaperone-signing-key"@, "default"@)] == base58::base58_text(
            crypto::sha256_digest(seed@ + bytes::utf8("chaperone-signing-key"@)),
        ),
        after[("chaperone-agreement-key"@, "default"@)] == base58::base58_text(
            crypto::sha256_digest(seed@ + bytes::utf8("chaperone-agreement-key"@)),
        ),
        after[("chaperone-identity-metadata"@, "default"@)] == text::number_text(
            created_at as nat,
            10,
        ) + ",0"@,
        forall|slot: Slot|
            slot != ("chaperone-signing-key"@, "default"@) && slot != (
                "chaperone-agreement-key"@,
                "default"@,
            ) && slot != ("chaperone-identity-metadata"@, "default"@) ==> (
            #[trigger] after.dom().contains(slot)) == before.dom().contains(slot) && after[slot]
                == before[slot],
{
    let seed = choose|seed: [u8; 32]| #[trigger]
        entropy::os_gave(seed) && after == with_identity(
            before,
            signing_seed(seed@),
            agreement_seed(seed@),
            created_at,
        );
    slots_differ();
    identity_fills_three_slots(
        before,
        signing_seed(seed@),
        agreement_seed(seed@),
        created_at,
        signing_slot(),
    );
    seed
}

/// Fresh keys come from a seed that the operating system gave, and from the whole of it.
pub proof fn fresh_keys_have_a_drawn_seed(before: Contents, after: Contents) -> (seed: [u8; 32])
    requires
        fresh_keys(before, after),
    ensures
        entropy::os_gave(seed),
        after[("chaperone-signing-key"@, "default"@)] == base58::base58_text(
            crypto::sha256_digest(seed@ + bytes::utf8("chaperone-signing-key"@)),
        ),
        after[("chaperone-agreement-key"@, "default"@)] == base58::base58_text(
            crypto::sha256_digest(seed@ + bytes::utf8("chaperone-agreement-key"@)),
        ),
        forall|slot: Slot|
            slot != ("chaperone-signing-key"@, "default"@) && slot != (
                "chaperone-agreement-key"@,
                "default"@,
            ) ==> (#[trigger] after.dom().contains(slot)) == before.dom().contains(slot)
                && after[slot] == before[slot],
{
    slots_differ();
    choose|seed: [u8; 32]| #[trigger]
        entropy::os_gave(seed) && after == with_keys(
            before,
            signing_seed(seed@),
            agreement_seed(seed@),
        )
}

/// A key that an answer of the keychain gives is the one that the answer is written as; an error
/// is handed on.
pub proof fn answer_gives_its_key(
    answer: Result<String, IdentityError>,
    complaint: Seq<char>,
    result: Result<[u8; 32], IdentityError>,
)
    requires
        gives_key(answer, complaint, result),
    ensures
        result matches Ok(key) ==> (answer matches Ok(stored) && stored@ == base58::base58_text(
            key@,
        )),
        answer matches Err(error) ==> result == Err::<[u8; 32], IdentityError>(error),
        answer matches Ok(stored) ==> (result is Err ==> !base58::is_base58(stored@)
            || base58::base58_bytes(stored@).len() != 32),
{
    if answer is Ok && result is Ok {
        base58::base58_reads_one_text(answer->Ok_0@);
    }
}

/// An identity that an answer of the keychain gives has the name of the signing key's public key
/// and the time and epoch of the answer; an error is handed on.
pub proof fn answer_gives_its_identity(
    signing: Seq<u8>,
    answer: Result<String, IdentityError>,
    result: Result<LocalIdentity, IdentityError>,
)
    requires
        gives_identity(signing, answer, result),
    ensures
        result matches Ok(identity) ==> {
            &&& identity.did_key@ == did_key::did_key_text(crypto::ed25519_public(signing))
            &&& answer matches Ok(stored) && metadata_outcome(stored@) == Ok::<
                (u64, u32),
                IdentityFault,
            >((identity.created_at, identity.rotation_epoch))
        },
        answer matches Err(error) ==> result == Err::<LocalIdentity, IdentityError>(error),
        answer matches Ok(stored) ==> (result matches Err(error) ==> metadata_outcome(stored@)
            == Err::<(u64, u32), IdentityFault>(error@)),
{
}

/// A slot holds a key exactly if a key can be loaded from it.
pub proof fn held_keys_load(entries: Contents, slot: Slot, complaint: Seq<char>)
    ensures
        holds_key(entries, slot) <==> key_in_slot(entries, slot, complaint) is Ok,
{
}

/// An error is told apart by its kind and by its text.
pub proof fn identity_error_by_its_text(error: IdentityError, message: String)
    ensures
        error == IdentityError::KeychainUnavailable(message) ==> error@
            == IdentityFault::KeychainUnavailable(message@),
        error == IdentityError::AlreadyBootstrapped ==> error@
            == IdentityFault::AlreadyBootstrapped,
        error == IdentityError::CorruptExistingIdentity(message) ==> error@
            == IdentityFault::CorruptExistingIdentity(message@),
        error == IdentityError::NotBootstrapped ==> error@ == IdentityFault::NotBootstrapped,
{
}

/// A result is told by what it holds.
pub proof fn identity_results_by_content(
    identity: Result<LocalIdentity, IdentityError>,
    key: Result<[u8; 32], IdentityError>,
)
    ensures
        identity matches Ok(held) ==> (identity_outcome(identity) matches Ok(profile)
            && profile.did_key == held.did_key@ && profile.created_at == held.created_at
            && profile.rotation_epoch == held.rotation_epoch),
        identity matches Err(error) ==> identity_outcome(identity) == Err::<Profile, IdentityFault>(
            error@,
        ),
        key matches Ok(held) ==> key_outcome(key) == Ok::<Seq<u8>, IdentityFault>(held@),
        key matches Err(error) ==> key_outcome(key) == Err::<Seq<u8>, IdentityFault>(error@),
{
}

/// A key that was loaded is the one that some answer of the keychain for the slot is written as,
/// and the keychain holds it there; what went wrong is what the keychain answered, or what is
/// wrong with its answer.
pub proof fn loaded_key_was_answered<K: KeychainBackend>(
    keychain: &K,
    slot: Slot,
    complaint: Seq<char>,
    result: Result<[u8; 32], IdentityError>,
) -> (answer: Result<String, IdentityError>)
    requires
        loads_key(keychain, slot, complaint, result),
    ensures
        keychain::answers(keychain, slot, answer),
        answer matches Err(error) ==> result == Err::<[u8; 32], IdentityError>(error),
        answer matches Ok(stored) ==> key_outcome(result) == stored_key_outcome(stored@, complaint),
        result matches Ok(key) ==> keychain.entries().dom().contains(slot)
            && keychain.entries()[slot] == base58::base58_text(key@),
{
    let answer = choose|answer: Result<String, IdentityError>| #[trigger]
        keychain::answers(keychain, slot, answer) && gives_key(answer, complaint, result);
    keychain::answer_is_what_is_held(keychain, slot, answer);
    answer_gives_its_key(answer, complaint, result);
    answer
}

/// An identity that was loaded is that of the signing key and the metadata which the keychain
/// holds.
pub proof fn loaded_identity_is_held<K: KeychainBackend>(
    keychain: &K,
    result: Result<LocalIdentity, IdentityError>,
    identity: LocalIdentity,
) -> (signing: [u8; 32])
    requires
        loads_identity(keychain, result),
        result == Ok::<LocalIdentity, IdentityError>(identity),
    ensures
        keychain.entries()[("chaperone-signing-key"@, "default"@)] == base58::base58_text(
            signing@,
        ),
        identity.did_key@ == did_key::did_key_text(crypto::ed25519_public(signing@)),
        metadata_outcome(keychain.entries()[("chaperone-identity-metadata"@, "default"@)]) == Ok::<
            (u64, u32),
            IdentityFault,
        >((identity.created_at, identity.rotation_epoch)),
{
    let loaded = choose|loaded: Result<[u8; 32], IdentityError>| #[trigger]
        loads_key(keychain, signing_slot(), "Invalid signing key length"@, loaded)
            && match loaded {
            Ok(key) => exists|answer: Result<String, IdentityError>| #[trigger]
                keychain::answers(keychain, metadata_slot(), answer) && gives_identity(
                    key@,
                    answer,
                    result,
                ),
            Err(error) => result == Err::<LocalIdentity, IdentityError>(error),
        };
    let signing = loaded->Ok_0;
    let answer = choose|answer: Result<String, IdentityError>| #[trigger]
        keychain::answers(keychain, metadata_slot(), answer) && gives_identity(
            signing@,
            answer,
            result,
        );
    let key_answer = loaded_key_was_answered(
        keychain,
        signing_slot(),
        "Invalid signing key length"@,
        loaded,
    );
    keychain::answer_is_what_is_held(keychain, metadata_slot(), answer);
    answer_gives_its_identity(signing@, answer, result);
    signing
}

/// A key that was refused was refused by the keychain: the signing key as it was before, or the
/// agreement key once the signing key was there.
pub proof fn refused_key_was_handed_over<K: KeychainBackend>(
    before: K,
    signing: Seq<u8>,
    agreement: Seq<u8>,
    error: IdentityError,
) -> (between: K)
    requires
        refuses_keys(before, signing, agreement, error),
    ensures
        keychain::keeps(
            before,
            ("chaperone-signing-key"@, "default"@),
            base58::base58_text(signing),
            Err::<(), IdentityError>(error),
        ) || {
            &&& between.entries() == before.entries().insert(
                ("chaperone-signing-key"@, "default"@),
                base58::base58_text(signing),
            )
            &&& keychain::keeps(
                between,
                ("chaperone-agreement-key"@, "default"@),
                base58::base58_text(agreement),
                Err::<(), IdentityError>(error),
            )
        },
{
    choose|between: K|
        between.entries() == before.entries().insert(signing_slot(), base58::base58_text(signing))
            && #[trigger] keychain::keeps(
            between,
            agreement_slot(),
            base58::base58_text(agreement),
            Err::<(), IdentityError>(error),
        )
}

/// Where an identity could not be made, the keychain refused one of its keys or its metadata, or
/// the clock stands before the Unix epoch.
pub proof fn bootstrap_faults_are_three<K: KeychainBackend>(
    before: K,
    seed: Seq<u8>,
    error: IdentityError,
) -> (at: (K, u64))
    requires
        bootstrap_fault(before, seed, error),
    ensures
        refuses_keys(
            before,
            crypto::sha256_digest(seed + bytes::utf8("chaperone-signing-key"@)),
            crypto::sha256_digest(seed + bytes::utf8("chaperone-agreement-key"@)),
            error,
        ) || (error matches IdentityError::CorruptExistingIdentity(message) && clock::clock_told(
            Err::<u64, String>(message),
        )) || (clock::clock_told(Ok::<u64, String>(at.1)) && keychain::keeps(
            at.0,
            ("chaperone-identity-metadata"@, "default"@),
            metadata_text(at.1, 0),
            Err::<(), IdentityError>(error),
        )),
{
    let signing = signing_seed(seed);
    let agreement = agreement_seed(seed);
    choose|between: K, created_at: u64|
        between.entries() == with_keys(before.entries(), signing, agreement) && clock::clock_told(
            Ok::<u64, String>(created_at),
        ) && #[trigger] keychain::keeps(
            between,
            metadata_slot(),
            metadata_text(created_at, 0),
            Err::<(), IdentityError>(error),
        )
}

/// An identity that could not be loaded failed on the signing key or, where that was loaded, on
/// the metadata.
pub proof fn failed_identity_hands_the_error_on<K: KeychainBackend>(
    keychain: &K,
    error: IdentityError,
) -> (answer: Result<String, IdentityError>)
    requires
        loads_identity(keychain, Err::<LocalIdentity, IdentityError>(error)),
    ensures
        loads_key(
            keychain,
            ("chaperone-signing-key"@, "default"@),
            "Invalid signing key length"@,
            Err::<[u8; 32], IdentityError>(error),
        ) || {
            &&& keychain::answers(keychain, ("chaperone-identity-metadata"@, "default"@), answer)
            &&& match answer {
                Ok(stored) => metadata_outcome(stored@) == Err::<(u64, u32), IdentityFault>(error@),
                Err(cause) => cause == error,
            }
        },
{
    let result = Err::<LocalIdentity, IdentityError>(error);
    let loaded = choose|loaded: Result<[u8; 32], IdentityError>| #[trigger]
        loads_key(keychain, signing_slot(), "Invalid signing key length"@, loaded)
            && match loaded {
            Ok(key) => exists|answer: Result<String, IdentityError>| #[trigger]
                keychain::answers(keychain, metadata_slot(), answer) && gives_identity(
                    key@,
                    answer,
                    result,
                ),
            Err(cause) => result == Err::<LocalIdentity, IdentityError>(cause),
        };
    match loaded {
        Ok(key) => choose|answer: Result<String, IdentityError>| #[trigger]
            keychain::answers(keychain, metadata_slot(), answer) && gives_identity(
                key@,
                answer,
                result,
            ),
        Err(cause) => Err(cause),
    }
}

} // verus!
