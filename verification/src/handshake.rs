//! The X3DH handshake: two parties agree on a session key, and the prekey that the responder has
//! published is signed.
use crate::base58;
use crate::bytes;
use crate::crypto;
use crate::did_key;
use crate::entropy;
use crate::identity;
use crate::identity::{IdentityError, IdentityFault, KeychainBackend, LocalIdentity};
use crate::keychain::{Contents, Slot};
use vstd::prelude::*;

verus! {

/// The key that both parties end up with.
pub type SessionKey = [u8; 32];

/// What can go wrong in a handshake.
#[derive(Debug, Clone)]
pub enum HandshakeError {
    InvalidSignature,
    IdentityError(IdentityError),
    SerializationError(String),
    Other(String),
}

/// A `HandshakeError` by the text that it holds.
pub enum HandshakeFault {
    InvalidSignature,
    IdentityError(IdentityFault),
    SerializationError(Seq<char>),
    Other(Seq<char>),
}

impl View for HandshakeError {
    type V = HandshakeFault;

    open spec fn view(&self) -> HandshakeFault {
        match self {
            HandshakeError::InvalidSignature => HandshakeFault::InvalidSignature,
            HandshakeError::IdentityError(error) => HandshakeFault::IdentityError(error@),
            HandshakeError::SerializationError(text) => HandshakeFault::SerializationError(text@),
            HandshakeError::Other(text) => HandshakeFault::Other(text@),
        }
    }
}

/// The words for a `HandshakeError`.
pub open spec fn handshake_message(fault: HandshakeFault) -> Seq<char> {
    match fault {
        HandshakeFault::InvalidSignature => "Invalid signed prekey signature"@,
        HandshakeFault::IdentityError(error) => "Identity error: "@ + identity::identity_message(
            error,
        ),
        HandshakeFault::SerializationError(text) => "Serialization error: "@ + text,
        HandshakeFault::Other(text) => "Handshake error: "@ + text,
    }
}

impl HandshakeError {
    /// The error in words.
    pub fn message(&self) -> (message: String)
        ensures
            message@ == handshake_message(self@),
            match *self {
                HandshakeError::InvalidSignature => message@ == "Invalid signed prekey signature"@,
                HandshakeError::IdentityError(error) => message@ == "Identity error: "@
                    + identity::identity_message(error@),
                HandshakeError::SerializationError(text) => message@ == "Serialization error: "@
                    + text@,
                HandshakeError::Other(text) => message@ == "Handshake error: "@ + text@,
            },
    {
        match self {
            HandshakeError::InvalidSignature => "Invalid signed prekey signature".to_owned(),
            HandshakeError::IdentityError(error) => "Identity error: ".to_owned().concat(
                &error.message(),
            ),
            HandshakeError::SerializationError(text) => "Serialization error: ".to_owned().concat(
                text,
            ),
            HandshakeError::Other(text) => "Handshake error: ".to_owned().concat(text),
        }
    }
}

impl From<IdentityError> for HandshakeError {
    fn from(e: IdentityError) -> (error: Self)
        ensures
            error == HandshakeError::IdentityError(e),
    {
        HandshakeError::IdentityError(e)
    }
}

impl vstd::std_specs::convert::FromSpecImpl<IdentityError> for HandshakeError {
    open spec fn obeys_from_spec() -> bool {
        true
    }

    open spec fn from_spec(e: IdentityError) -> Self {
        HandshakeError::IdentityError(e)
    }
}

/// What the initiator sends: its public keys, and the responder's prekey with its signature.
#[derive(Debug, Clone, PartialEq, Eq)]
pub struct HandshakeInit {
    pub identity_key: [u8; 32],
    pub signed_prekey: [u8; 32],
    pub signed_prekey_sig: [u8; 64],
    pub ephemeral_key: [u8; 32],
}

/// A `HandshakeInit` as it goes over the wire, where a field may have any length.
#[derive(Debug, Clone, PartialEq, Eq)]
pub struct HandshakeMessage {
    pub identity_key: Vec<u8>,
    pub signed_prekey: Vec<u8>,
    pub signed_prekey_sig: Vec<u8>,
    pub ephemeral_key: Vec<u8>,
}

/// The first field of a message that has the wrong length, if any.
pub open spec fn misfit(message: HandshakeMessage) -> Option<Seq<char>> {
    if message.identity_key@.len() != 32 {
        Some("Invalid identity_key length"@)
    } else if message.signed_prekey@.len() != 32 {
        Some("Invalid signed_prekey length"@)
    } else if message.signed_prekey_sig@.len() != 64 {
        Some("Invalid signed_prekey_sig length"@)
    } else if message.ephemeral_key@.len() != 32 {
        Some("Invalid ephemeral_key length"@)
    } else {
        None
    }
}

/// The message holds what `init` holds.
pub open spec fn carries(message: HandshakeMessage, init: HandshakeInit) -> bool {
    &&& message.identity_key@ == init.identity_key@
    &&& message.signed_prekey@ == init.signed_prekey@
    &&& message.signed_prekey_sig@ == init.signed_prekey_sig@
    &&& message.ephemeral_key@ == init.ephemeral_key@
}

/// A message that was made from a handshake is read without complaint, and as that handshake.
pub proof fn message_round_trip(
    message: HandshakeMessage,
    init: HandshakeInit,
    read: HandshakeInit,
)
    requires
        carries(message, init),
    ensures
        misfit(message) is None,
        carries(message, read) ==> read == init,
{
    if carries(message, read) {
        assert(read.identity_key =~= init.identity_key);
        assert(read.signed_prekey =~= init.signed_prekey);
        assert(read.signed_prekey_sig =~= init.signed_prekey_sig);
        assert(read.ephemeral_key =~= init.ephemeral_key);
    }
}

impl TryFrom<HandshakeMessage> for HandshakeInit {
    type Error = HandshakeError;

    /// Reads a message, whose fields must have the right lengths.
    fn try_from(message: HandshakeMessage) -> (result: Result<Self, HandshakeError>)
        ensures
            result is Ok <==> misfit(message) is None,
            result matches Ok(init) ==> carries(message, init),
            result matches Err(error) ==> {
                &&& misfit(message) matches Some(text)
                &&& error@ == HandshakeFault::SerializationError(text)
            },
    {
        let identity_key: [u8; 32] = match bytes::exact_array(&message.identity_key) {
            Some(key) => key,
            None => return Err(
                HandshakeError::SerializationError("Invalid identity_key length".to_owned()),
            ),
        };
        let signed_prekey: [u8; 32] = match bytes::exact_array(&message.signed_prekey) {
            Some(key) => key,
            None => return Err(
                HandshakeError::SerializationError("Invalid signed_prekey length".to_owned()),
            ),
        };
        let signed_prekey_sig: [u8; 64] = match bytes::exact_array(&message.signed_prekey_sig) {
            Some(signature) => signature,
            None => return Err(
                HandshakeError::SerializationError("Invalid signed_prekey_sig length".to_owned()),
            ),
        };
        let ephemeral_key: [u8; 32] = match bytes::exact_array(&message.ephemeral_key) {
            Some(key) => key,
            None => return Err(
                HandshakeError::SerializationError("Invalid ephemeral_key length".to_owned()),
            ),
        };
        Ok(HandshakeInit { identity_key, signed_prekey, signed_prekey_sig, ephemeral_key })
    }
}

/// The contract of `try_from` is stated on the function itself.
impl vstd::std_specs::convert::TryFromSpecImpl<HandshakeMessage> for HandshakeInit {
    open spec fn obeys_try_from_spec() -> bool {
        false
    }

    open spec fn try_from_spec(message: HandshakeMessage) -> Result<Self, HandshakeError> {
        arbitrary()
    }
}

impl From<HandshakeInit> for HandshakeMessage {
    /// The message that carries the handshake.
    fn from(init: HandshakeInit) -> (message: Self)
        ensures
            carries(message, init),
    {
        HandshakeMessage {
            identity_key: bytes::copy(&init.identity_key),
            signed_prekey: bytes::copy(&init.signed_prekey),
            signed_prekey_sig: bytes::copy(&init.signed_prekey_sig),
            ephemeral_key: bytes::copy(&init.ephemeral_key),
        }
    }
}

/// The contract of `from` is stated on the function itself.
impl vstd::std_specs::convert::FromSpecImpl<HandshakeInit> for HandshakeMessage {
    open spec fn obeys_from_spec() -> bool {
        false
    }

    open spec fn from_spec(init: HandshakeInit) -> Self {
        arbitrary()
    }
}

/// The session key that three shared secrets give.
pub open spec fn session_key(dh1: Seq<u8>, dh2: Seq<u8>, dh3: Seq<u8>) -> Seq<u8> {
    crypto::hkdf_sha256(dh1 + dh2 + dh3, bytes::utf8("chaperone-x3dh-session-key"@), 32)
}

/// The session key that the initiator gets from its two secrets and the responder's public keys.
pub open spec fn initiator_key(
    agreement: Seq<u8>,
    ephemeral: Seq<u8>,
    remote_identity_key: Seq<u8>,
    remote_signed_prekey: Seq<u8>,
) -> Seq<u8> {
    session_key(
        crypto::x25519_shared(agreement, remote_signed_prekey),
        crypto::x25519_shared(ephemeral, remote_identity_key),
        crypto::x25519_shared(ephemeral, remote_signed_prekey),
    )
}

/// The session key that the responder gets from its two secrets and the initiator's public keys.
pub open spec fn responder_key(
    agreement: Seq<u8>,
    prekey: Seq<u8>,
    identity_key: Seq<u8>,
    ephemeral_key: Seq<u8>,
) -> Seq<u8> {
    session_key(
        crypto::x25519_shared(prekey, identity_key),
        crypto::x25519_shared(agreement, ephemeral_key),
        crypto::x25519_shared(prekey, ephemeral_key),
    )
}

fn combine(dh1: &[u8; 32], dh2: &[u8; 32], dh3: &[u8; 32]) -> (key: SessionKey)
    ensures
        key@ == session_key(dh1@, dh2@, dh3@),
        key@ == crypto::hkdf_sha256(
            dh1@ + dh2@ + dh3@,
            bytes::utf8("chaperone-x3dh-session-key"@),
            32,
        ),
{
    let mut secret = bytes::copy(dh1);
    bytes::append(&mut secret, dh2);
    bytes::append(&mut secret, dh3);
    crypto::hkdf(&secret, "chaperone-x3dh-session-key".as_bytes())
}

/// The initiator's part, with its secrets given: what to send, and the session key. The signature
/// is left zero, for the caller to fill in from what the responder has published.
pub fn initiate_with(
    agreement: &[u8; 32],
    ephemeral: &[u8; 32],
    remote_identity_key: [u8; 32],
    remote_signed_prekey: [u8; 32],
) -> (started: (HandshakeInit, SessionKey))
    ensures
        started.0.identity_key@ == crypto::x25519_public(agreement@),
        started.0.signed_prekey == remote_signed_prekey,
        started.0.signed_prekey_sig@ == Seq::new(64, |i: int| 0u8),
        started.0.ephemeral_key@ == crypto::x25519_public(ephemeral@),
        started.1@ == initiator_key(
            agreement@,
            ephemeral@,
            remote_identity_key@,
            remote_signed_prekey@,
        ),
        started.1@ == crypto::hkdf_sha256(
            crypto::x25519_shared(agreement@, remote_signed_prekey@) + crypto::x25519_shared(
                ephemeral@,
                remote_identity_key@,
            ) + crypto::x25519_shared(ephemeral@, remote_signed_prekey@),
            bytes::utf8("chaperone-x3dh-session-key"@),
            32,
        ),
{
    let dh1 = crypto::x25519(agreement, &remote_signed_prekey);
    let dh2 = crypto::x25519(ephemeral, &remote_identity_key);
    let dh3 = crypto::x25519(ephemeral, &remote_signed_prekey);
    let key = combine(&dh1, &dh2, &dh3);
    let signed_prekey_sig: [u8; 64] = [0u8; 64];
    assert(signed_prekey_sig@ =~= Seq::new(64, |i: int| 0u8));
    let init = HandshakeInit {
        identity_key: crypto::x25519_public_key(agreement),
        signed_prekey: remote_signed_prekey,
        signed_prekey_sig,
        ephemeral_key: crypto::x25519_public_key(ephemeral),
    };
    (init, key)
}

/// The key that a slot holds.
pub open spec fn held_key(entries: Contents, slot: Slot) -> Seq<u8> {
    base58::base58_bytes(entries[slot])
}

/// `started` is a handshake from the secrets `agreement` and `ephemeral`.
pub open spec fn starts_with(
    started: (HandshakeInit, SessionKey),
    agreement: Seq<u8>,
    ephemeral: Seq<u8>,
    remote_identity_key: Seq<u8>,
    remote_signed_prekey: Seq<u8>,
) -> bool {
    &&& ephemeral.len() == 32
    &&& started.0.identity_key@ == crypto::x25519_public(agreement)
    &&& started.0.signed_prekey@ == remote_signed_prekey
    &&& started.0.signed_prekey_sig@ == Seq::new(64, |i: int| 0u8)
    &&& started.0.ephemeral_key@ == crypto::x25519_public(ephemeral)
    &&& started.1@ == initiator_key(
        agreement,
        ephemeral,
        remote_identity_key,
        remote_signed_prekey,
    )
}

/// `started` is a handshake from the secret `agreement` and one that the generator of the thread
/// gave.
pub open spec fn starts(
    started: (HandshakeInit, SessionKey),
    agreement: Seq<u8>,
    remote_identity_key: Seq<u8>,
    remote_signed_prekey: Seq<u8>,
) -> bool {
    exists|ephemeral: [u8; 32]| #[trigger]
        entropy::thread_gave(ephemeral) && starts_with(
            started,
            agreement,
            ephemeral@,
            remote_identity_key,
            remote_signed_prekey,
        )
}

/// Starts a handshake with the agreement key of the keychain, or tells why it cannot be loaded.
pub fn try_initiate<K: KeychainBackend>(
    keychain: &K,
    local: &LocalIdentity,
    remote_identity_key: [u8; 32],
    remote_signed_prekey: [u8; 32],
) -> (result: Result<(HandshakeInit, SessionKey), IdentityError>)
    ensures
        exists|loaded: Result<[u8; 32], IdentityError>| #[trigger]
            identity::loads_key(
                keychain,
                identity::agreement_slot(),
                "Invalid agreement key length"@,
                loaded,
            ) && match loaded {
                Ok(_) => result is Ok,
                Err(error) => result == Err::<(HandshakeInit, SessionKey), IdentityError>(error),
            },
        result matches Ok(started) ==> {
            &&& identity::holds_key(keychain.entries(), identity::agreement_slot())
            &&& starts(
                started,
                held_key(keychain.entries(), identity::agreement_slot()),
                remote_identity_key@,
                remote_signed_prekey@,
            )
        },
        keychain.dependable() ==> {
            &&& result is Ok <==> identity::holds_key(
                keychain.entries(),
                identity::agreement_slot(),
            )
            &&& result matches Err(error) ==> identity::key_in_slot(
                keychain.entries(),
                identity::agreement_slot(),
                "Invalid agreement key length"@,
            ) == Err::<Seq<u8>, IdentityFault>(error@)
        },
{
    let agreement = match local.load_agreement_key(keychain) {
        Ok(key) => key,
        Err(error) => return Err(error),
    };
    let ephemeral: [u8; 32] = entropy::thread_draw();
    let started = initiate_with(
        &agreement,
        &ephemeral,
        remote_identity_key,
        remote_signed_prekey,
    );
    assert(starts_with(
        started,
        held_key(keychain.entries(), identity::agreement_slot()),
        ephemeral@,
        remote_identity_key@,
        remote_signed_prekey@,
    ));
    Ok(started)
}

/// Starts a handshake with the agreement key of a keychain that holds one.
pub fn initiate<K: KeychainBackend>(
    keychain: &K,
    local: &LocalIdentity,
    remote_identity_key: [u8; 32],
    remote_signed_prekey: [u8; 32],
) -> (started: (HandshakeInit, SessionKey))
    requires
        keychain.dependable(),
        identity::holds_key(keychain.entries(), identity::agreement_slot()),
    ensures
        starts(
            started,
            held_key(keychain.entries(), identity::agreement_slot()),
            remote_identity_key@,
            remote_signed_prekey@,
        ),
{
    match try_initiate(keychain, local, remote_identity_key, remote_signed_prekey) {
        Ok(started) => started,
        Err(_) => vstd::pervasive::unreached(),
    }
}

/// `key` is what the initiator gets, whatever the secrets behind its public keys are.
pub open spec fn agrees(
    key: Seq<u8>,
    init: HandshakeInit,
    remote_identity_key: Seq<u8>,
    remote_signed_prekey: Seq<u8>,
) -> bool {
    forall|agreement: Seq<u8>, ephemeral: Seq<u8>|
        agreement.len() == 32 && ephemeral.len() == 32 && init.identity_key@
            == crypto::x25519_public(agreement) && init.ephemeral_key@ == crypto::x25519_public(
            ephemeral,
        ) ==> key == #[trigger] initiator_key(
            agreement,
            ephemeral,
            remote_identity_key,
            remote_signed_prekey,
        )
}

/// Both parties end up with one session key: what the responder gets for the public keys that the
/// initiator sent is what the initiator got. The signature may have been filled in between.
pub proof fn both_parties_get_one_key(
    started: (HandshakeInit, SessionKey),
    agreement: Seq<u8>,
    remote_identity_key: Seq<u8>,
    remote_signed_prekey: Seq<u8>,
    received: HandshakeInit,
    key: Seq<u8>,
)
    requires
        agreement.len() == 32,
        starts(started, agreement, remote_identity_key, remote_signed_prekey),
        received.identity_key == started.0.identity_key,
        received.ephemeral_key == started.0.ephemeral_key,
        agrees(key, received, remote_identity_key, remote_signed_prekey),
    ensures
        key == started.1@,
{
    let ephemeral = choose|ephemeral: [u8; 32]| #[trigger]
        entropy::thread_gave(ephemeral) && starts_with(
            started,
            agreement,
            ephemeral@,
            remote_identity_key,
            remote_signed_prekey,
        );
    assert(initiator_key(agreement, ephemeral@, remote_identity_key, remote_signed_prekey)
        == started.1@);
}

/// The responder's part, with its secrets given: the session key. It is the key that the
/// initiator got, whatever its secrets are.
pub fn respond_with(agreement: &[u8; 32], prekey: &[u8; 32], init: &HandshakeInit) -> (key:
    SessionKey)
    ensures
        key@ == responder_key(agreement@, prekey@, init.identity_key@, init.ephemeral_key@),
        key@ == crypto::hkdf_sha256(
            crypto::x25519_shared(prekey@, init.identity_key@) + crypto::x25519_shared(
                agreement@,
                init.ephemeral_key@,
            ) + crypto::x25519_shared(prekey@, init.ephemeral_key@),
            bytes::utf8("chaperone-x3dh-session-key"@),
            32,
        ),
        agrees(
            key@,
            *init,
            crypto::x25519_public(agreement@),
            crypto::x25519_public(prekey@),
        ),
{
    let dh1 = crypto::x25519(prekey, &init.identity_key);
    let dh2 = crypto::x25519(agreement, &init.ephemeral_key);
    let dh3 = crypto::x25519(prekey, &init.ephemeral_key);
    combine(&dh1, &dh2, &dh3)
}

/// What is wrong with a handshake before any private key is looked at: first the name of the
/// identity, then its key, then the signature.
pub open spec fn refusal(did_key: Seq<char>, init: HandshakeInit) -> Option<HandshakeFault> {
    match did_key::did_key_outcome(did_key) {
        Err(text) => Some(
            HandshakeFault::IdentityError(IdentityFault::CorruptExistingIdentity(text)),
        ),
        Ok(public) => match crypto::ed25519_key_fault(public) {
            Some(text) => Some(HandshakeFault::Other(text)),
            None => if crypto::ed25519_fault(
                public,
                init.signed_prekey@,
                init.signed_prekey_sig@,
            ) is Some {
                Some(HandshakeFault::InvalidSignature)
            } else {
                None
            },
        },
    }
}

/// What responding comes to. A handshake that is not refused needs the agreement key and then the
/// prekey.
pub open spec fn respond_outcome(
    entries: Contents,
    did_key: Seq<char>,
    init: HandshakeInit,
) -> Result<Seq<u8>, HandshakeFault> {
    match refusal(did_key, init) {
        Some(fault) => Err(fault),
        None => match identity::key_in_slot(
            entries,
            identity::agreement_slot(),
            "Invalid agreement key length"@,
        ) {
            Err(fault) => Err(HandshakeFault::IdentityError(fault)),
            Ok(agreement) => match identity::key_in_slot(
                entries,
                identity::prekey_slot(),
                "Invalid signed prekey length"@,
            ) {
                Err(fault) => Err(HandshakeFault::IdentityError(fault)),
                Ok(prekey) => Ok(
                    responder_key(agreement, prekey, init.identity_key@, init.ephemeral_key@),
                ),
            },
        },
    }
}

/// `result` is what a handshake that is not refused comes to with the keys that the keychain
/// gives; what went wrong in the keychain is handed on as it came.
pub open spec fn answers_handshake<K: KeychainBackend>(
    keychain: &K,
    init: HandshakeInit,
    result: Result<SessionKey, HandshakeError>,
) -> bool {
    exists|agreement: Result<[u8; 32], IdentityError>| #[trigger]
        identity::loads_key(
            keychain,
            identity::agreement_slot(),
            "Invalid agreement key length"@,
            agreement,
        ) && match agreement {
            Err(error) => result == Err::<SessionKey, HandshakeError>(
                HandshakeError::IdentityError(error),
            ),
            Ok(key) => exists|prekey: Result<[u8; 32], IdentityError>| #[trigger]
                identity::loads_key(
                    keychain,
                    identity::prekey_slot(),
                    "Invalid signed prekey length"@,
                    prekey,
                ) && answers_with(key@, prekey, init, result),
        }
}

/// `result` is what a handshake comes to with this agreement key and what came of loading the
/// prekey.
pub open spec fn answers_with(
    agreement: Seq<u8>,
    prekey: Result<[u8; 32], IdentityError>,
    init: HandshakeInit,
    result: Result<SessionKey, HandshakeError>,
) -> bool {
    match prekey {
        Err(error) => result == Err::<SessionKey, HandshakeError>(
            HandshakeError::IdentityError(error),
        ),
        Ok(key) => result matches Ok(session) && session@ == responder_key(
            agreement,
            key@,
            init.identity_key@,
            init.ephemeral_key@,
        ),
    }
}

/// Checks the signature of the prekey that a handshake is for, and gives the session key.
pub fn respond<K: KeychainBackend>(keychain: &K, local: &LocalIdentity, init: &HandshakeInit) -> (
result: Result<SessionKey, HandshakeError>)
    ensures
        refusal(local.did_key@, *init) is None ==> answers_handshake(keychain, *init, result),
        result matches Ok(key) ==> {
            &&& respond_outcome(keychain.entries(), local.did_key@, *init) == Ok::<
                Seq<u8>,
                HandshakeFault,
            >(key@)
            &&& agrees(
                key@,
                *init,
                crypto::x25519_public(held_key(keychain.entries(), identity::agreement_slot())),
                crypto::x25519_public(held_key(keychain.entries(), identity::prekey_slot())),
            )
        },
        refusal(local.did_key@, *init) matches Some(fault) ==> (result matches Err(error) && error@
            == fault),
        result matches Err(error) ==> (keychain.dependable() ==> respond_outcome(
            keychain.entries(),
            local.did_key@,
            *init,
        ) == Err::<Seq<u8>, HandshakeFault>(error@)),
{
    let public = match identity::did_key_to_bytes(&local.did_key) {
        Ok(public) => public,
        Err(error) => return Err(HandshakeError::from(error)),
    };
    match crypto::ed25519_check_key(&public) {
        Ok(_) => {},
        Err(text) => return Err(HandshakeError::Other(text)),
    }
    match crypto::ed25519_verify(&public, &init.signed_prekey, &init.signed_prekey_sig) {
        Ok(_) => {},
        Err(_) => return Err(HandshakeError::InvalidSignature),
    }
    let agreement = match local.load_agreement_key(keychain) {
        Ok(key) => key,
        Err(error) => return Err(HandshakeError::from(error)),
    };
    let prekey = match local.load_signed_prekey(keychain) {
        Ok(key) => key,
        Err(error) => return Err(HandshakeError::from(error)),
    };
    Ok(respond_with(&agreement, &prekey, init))
}

/// A handshake that carries the signature which the responder's signing key made is accepted by
/// a responder whose keychain holds its keys.
pub proof fn signed_handshake_is_accepted(
    entries: Contents,
    public: Seq<u8>,
    init: HandshakeInit,
)
    requires
        public.len() == 32,
        crypto::ed25519_key_fault(public) is None,
        crypto::ed25519_fault(public, init.signed_prekey@, init.signed_prekey_sig@) is None,
        identity::holds_key(entries, identity::agreement_slot()),
        identity::holds_key(entries, identity::prekey_slot()),
    ensures
        respond_outcome(entries, did_key::did_key_text(public), init) == Ok::<
            Seq<u8>,
            HandshakeFault,
        >(
            responder_key(
                held_key(entries, identity::agreement_slot()),
                held_key(entries, identity::prekey_slot()),
                init.identity_key@,
                init.ephemeral_key@,
            ),
        ),
{
    did_key::did_key_round_trip(public);
}

/// No handshake whose signature does not verify is accepted, whatever the keychain holds.
pub proof fn forged_handshake_is_refused(
    entries: Contents,
    public: Seq<u8>,
    init: HandshakeInit,
)
    requires
        public.len() == 32,
        crypto::ed25519_key_fault(public) is None,
        crypto::ed25519_fault(public, init.signed_prekey@, init.signed_prekey_sig@) is Some,
    ensures
        respond_outcome(entries, did_key::did_key_text(public), init) == Err::<
            Seq<u8>,
            HandshakeFault,
        >(HandshakeFault::InvalidSignature),
{
    did_key::did_key_round_trip(public);
}

/// The initiator's key comes from 96 secret bytes: what its agreement key shares with the prekey,
/// what its ephemeral key shares with the responder's identity key, and what its ephemeral key
/// shares with the prekey, 32 bytes each.
pub proof fn initiator_key_takes_three_secrets(
    agreement: Seq<u8>,
    ephemeral: Seq<u8>,
    remote_identity_key: Seq<u8>,
    remote_signed_prekey: Seq<u8>,
    secret: Seq<u8>,
)
    requires
        secret.len() == 96,
        secret.subrange(0, 32) == crypto::x25519_shared(agreement, remote_signed_prekey),
        secret.subrange(32, 64) == crypto::x25519_shared(ephemeral, remote_identity_key),
        secret.subrange(64, 96) == crypto::x25519_shared(ephemeral, remote_signed_prekey),
    ensures
        initiator_key(agreement, ephemeral, remote_identity_key, remote_signed_prekey)
            == crypto::hkdf_sha256(secret, bytes::utf8("chaperone-x3dh-session-key"@), 32),
{
    assert(secret.subrange(0, 32) + secret.subrange(32, 64) + secret.subrange(64, 96) =~= secret);
}

/// The responder's key comes from 96 secret bytes: what its prekey shares with the initiator's
/// identity key, what its agreement key shares with the ephemeral key, and what its prekey shares
/// with the ephemeral key, 32 bytes each.
pub proof fn responder_key_takes_three_secrets(
    agreement: Seq<u8>,
    prekey: Seq<u8>,
    identity_key: Seq<u8>,
    ephemeral_key: Seq<u8>,
    secret: Seq<u8>,
)
    requires
        secret.len() == 96,
        secret.subrange(0, 32) == crypto::x25519_shared(prekey, identity_key),
        secret.subrange(32, 64) == crypto::x25519_shared(agreement, ephemeral_key),
        secret.subrange(64, 96) == crypto::x25519_shared(prekey, ephemeral_key),
    ensures
        responder_key(agreement, prekey, identity_key, ephemeral_key) == crypto::hkdf_sha256(
            secret,
            bytes::utf8("chaperone-x3dh-session-key"@),
            32,
        ),
{
    assert(secret.subrange(0, 32) + secret.subrange(32, 64) + secret.subrange(64, 96) =~= secret);
}

/// A handshake that starts from two secrets shows their public keys and the prekey that it is
/// for, has no signature yet, and has the key of the three shared secrets.
pub proof fn started_handshake_shows_public_keys(
    started: (HandshakeInit, SessionKey),
    agreement: Seq<u8>,
    ephemeral: Seq<u8>,
    remote_identity_key: Seq<u8>,
    remote_signed_prekey: Seq<u8>,
)
    requires
        starts_with(started, agreement, ephemeral, remote_identity_key, remote_signed_prekey),
    ensures
        started.0.identity_key@ == crypto::x25519_public(agreement),
        started.0.ephemeral_key@ == crypto::x25519_public(ephemeral),
        started.0.signed_prekey@ == remote_signed_prekey,
        forall|i: int| 0 <= i < 64 ==> #[trigger] started.0.signed_prekey_sig@[i] == 0,
        started.1@ == crypto::hkdf_sha256(
            crypto::x25519_shared(agreement, remote_signed_prekey) + crypto::x25519_shared(
                ephemeral,
                remote_identity_key,
            ) + crypto::x25519_shared(ephemeral, remote_signed_prekey),
            bytes::utf8("chaperone-x3dh-session-key"@),
            32,
        ),
{
}

/// A handshake that was started has an ephemeral secret which the generator of the thread gave.
pub proof fn started_handshake_has_fresh_secret(
    started: (HandshakeInit, SessionKey),
    agreement: Seq<u8>,
    remote_identity_key: Seq<u8>,
    remote_signed_prekey: Seq<u8>,
) -> (ephemeral: [u8; 32])
    requires
        starts(started, agreement, remote_identity_key, remote_signed_prekey),
    ensures
        entropy::thread_gave(ephemeral),
        started.0.identity_key@ == crypto::x25519_public(agreement),
        started.0.ephemeral_key@ == crypto::x25519_public(ephemeral@),
        started.0.signed_prekey@ == remote_signed_prekey,
        started.1@ == crypto::hkdf_sha256(
            crypto::x25519_shared(agreement, remote_signed_prekey) + crypto::x25519_shared(
                ephemeral@,
                remote_identity_key,
            ) + crypto::x25519_shared(ephemeral@, remote_signed_prekey),
            bytes::utf8("chaperone-x3dh-session-key"@),
            32,
        ),
{
    choose|ephemeral: [u8; 32]| #[trigger]
        entropy::thread_gave(ephemeral) && starts_with(
            started,
            agreement,
            ephemeral@,
            remote_identity_key,
            remote_signed_prekey,
        )
}

/// A key that agrees with a handshake is the one that the secrets behind its public keys give.
pub proof fn agreed_key_is_of_the_secrets(
    key: Seq<u8>,
    init: HandshakeInit,
    remote_identity_key: Seq<u8>,
    remote_signed_prekey: Seq<u8>,
    agreement: Seq<u8>,
    ephemeral: Seq<u8>,
)
    requires
        agrees(key, init, remote_identity_key, remote_signed_prekey),
        agreement.len() == 32,
        ephemeral.len() == 32,
        init.identity_key@ == crypto::x25519_public(agreement),
        init.ephemeral_key@ == crypto::x25519_public(ephemeral),
    ensures
        key == crypto::hkdf_sha256(
            crypto::x25519_shared(agreement, remote_signed_prekey) + crypto::x25519_shared(
                ephemeral,
                remote_identity_key,
            ) + crypto::x25519_shared(ephemeral, remote_signed_prekey),
            bytes::utf8("chaperone-x3dh-session-key"@),
            32,
        ),
{
    let wanted = initiator_key(agreement, ephemeral, remote_identity_key, remote_signed_prekey);
    assert(key == wanted);
}

/// A message is read exactly if its keys have 32 bytes each and its signature 64; else the first
/// field of another length is told.
pub proof fn message_lengths_are_fixed(message: HandshakeMessage)
    ensures
        misfit(message) is None <==> message.identity_key@.len() == 32
            && message.signed_prekey@.len() == 32 && message.signed_prekey_sig@.len() == 64
            && message.ephemeral_key@.len() == 32,
        message.identity_key@.len() != 32 ==> misfit(message) == Some(
            "Invalid identity_key length"@,
        ),
        message.identity_key@.len() == 32 && message.signed_prekey@.len() != 32 ==> misfit(message)
            == Some("Invalid signed_prekey length"@),
        message.identity_key@.len() == 32 && message.signed_prekey@.len() == 32
            && message.signed_prekey_sig@.len() != 64 ==> misfit(message) == Some(
            "Invalid signed_prekey_sig length"@,
        ),
        message.identity_key@.len() == 32 && message.signed_prekey@.len() == 32
            && message.signed_prekey_sig@.len() == 64 && message.ephemeral_key@.len() != 32
            ==> misfit(message) == Some("Invalid ephemeral_key length"@),
{
}

/// A message that carries a handshake holds each of its fields in the field of that name.
pub proof fn carried_fields_are_the_same(message: HandshakeMessage, init: HandshakeInit)
    ensures
        carries(message, init) <==> message.identity_key@ == init.identity_key@
            && message.signed_prekey@ == init.signed_prekey@ && message.signed_prekey_sig@
            == init.signed_prekey_sig@ && message.ephemeral_key@ == init.ephemeral_key@,
{
}

/// A handshake is answered only if the name of the responder is that of a public key under which
/// the signature of the prekey verifies, and only from the two keys of 32 bytes that the keychain
/// holds.
pub proof fn answered_handshake_is_signed(
    entries: Contents,
    name: Seq<char>,
    init: HandshakeInit,
    key: Seq<u8>,
) -> (keys: (Seq<u8>, Seq<u8>, Seq<u8>))
    requires
        respond_outcome(entries, name, init) == Ok::<Seq<u8>, HandshakeFault>(key),
    ensures
        keys.0.len() == 32 && keys.1.len() == 32 && keys.2.len() == 32,
        name == did_key::did_key_text(keys.0),
        crypto::ed25519_key_fault(keys.0) is None,
        crypto::ed25519_fault(keys.0, init.signed_prekey@, init.signed_prekey_sig@) is None,
        entries.dom().contains(("chaperone-agreement-key"@, "default"@)),
        entries[("chaperone-agreement-key"@, "default"@)] == base58::base58_text(keys.1),
        entries.dom().contains(("chaperone-signed-prekey"@, "default"@)),
        entries[("chaperone-signed-prekey"@, "default"@)] == base58::base58_text(keys.2),
        key == crypto::hkdf_sha256(
            crypto::x25519_shared(keys.2, init.identity_key@) + crypto::x25519_shared(
                keys.1,
                init.ephemeral_key@,
            ) + crypto::x25519_shared(keys.2, init.ephemeral_key@),
            bytes::utf8("chaperone-x3dh-session-key"@),
            32,
        ),
{
    let public = did_key::did_key_outcome(name)->Ok_0;
    did_key::did_key_reads_one_name(name, public);
    base58::base58_reads_one_text(entries[identity::agreement_slot()]);
    base58::base58_reads_one_text(entries[identity::prekey_slot()]);
    (
        public,
        held_key(entries, identity::agreement_slot()),
        held_key(entries, identity::prekey_slot()),
    )
}

/// What a refused handshake is answered: what is wrong with the name, else with its key, else
/// that the signature is invalid.
pub proof fn refusals_come_in_order(name: Seq<char>, public: Seq<u8>, init: HandshakeInit)
    requires
        public.len() == 32,
    ensures
        did_key::did_key_outcome(name) matches Err(text) ==> refusal(name, init) == Some(
            HandshakeFault::IdentityError(IdentityFault::CorruptExistingIdentity(text)),
        ),
        crypto::ed25519_key_fault(public) matches Some(text) ==> refusal(
            did_key::did_key_text(public),
            init,
        ) == Some(HandshakeFault::Other(text)),
        crypto::ed25519_key_fault(public) is None && crypto::ed25519_fault(
            public,
            init.signed_prekey@,
            init.signed_prekey_sig@,
        ) is Some ==> refusal(did_key::did_key_text(public), init) == Some(
            HandshakeFault::InvalidSignature,
        ),
        crypto::ed25519_key_fault(public) is None && crypto::ed25519_fault(
            public,
            init.signed_prekey@,
            init.signed_prekey_sig@,
        ) is None ==> refusal(did_key::did_key_text(public), init) is None,
{
    did_key::did_key_round_trip(public);
}

/// A refused handshake is answered with the refusal, whatever the keychain holds; one that is not
/// refused with what is wrong with the agreement key, else with the prekey.
pub proof fn response_faults_come_in_order(entries: Contents, name: Seq<char>, init: HandshakeInit)
    ensures
        refusal(name, init) matches Some(fault) ==> respond_outcome(entries, name, init) == Err::<
            Seq<u8>,
            HandshakeFault,
        >(fault),
        refusal(name, init) is None ==> (identity::key_in_slot(
            entries,
            ("chaperone-agreement-key"@, "default"@),
            "Invalid agreement key length"@,
        ) matches Err(fault) ==> respond_outcome(entries, name, init) == Err::<
            Seq<u8>,
            HandshakeFault,
        >(HandshakeFault::IdentityError(fault))),
        refusal(name, init) is None && identity::key_in_slot(
            entries,
            ("chaperone-agreement-key"@, "default"@),
            "Invalid agreement key length"@,
        ) is Ok ==> (identity::key_in_slot(
            entries,
            ("chaperone-signed-prekey"@, "default"@),
            "Invalid signed prekey length"@,
        ) matches Err(fault) ==> respond_outcome(entries, name, init) == Err::<
            Seq<u8>,
            HandshakeFault,
        >(HandshakeFault::IdentityError(fault))),
{
}

/// An answer from an agreement key and a prekey is the key of the three shared secrets; what went
/// wrong with the prekey is handed on.
pub proof fn answer_is_from_both_keys(
    agreement: Seq<u8>,
    prekey: Result<[u8; 32], IdentityError>,
    init: HandshakeInit,
    result: Result<SessionKey, HandshakeError>,
)
    requires
        answers_with(agreement, prekey, init, result),
    ensures
        result is Ok <==> prekey is Ok,
        prekey matches Err(error) ==> result == Err::<SessionKey, HandshakeError>(
            HandshakeError::IdentityError(error),
        ),
        result matches Ok(session) ==> session@ == crypto::hkdf_sha256(
            crypto::x25519_shared(prekey->Ok_0@, init.identity_key@) + crypto::x25519_shared(
                agreement,
                init.ephemeral_key@,
            ) + crypto::x25519_shared(prekey->Ok_0@, init.ephemeral_key@),
            bytes::utf8("chaperone-x3dh-session-key"@),
            32,
        ),
{
}

/// The key that a slot holds is the one that its text is written as.
pub proof fn held_key_is_written_so(entries: Contents, slot: Slot, key: Seq<u8>)
    requires
        entries[slot] == base58::base58_text(key),
    ensures
        held_key(entries, slot) == key,
{
    base58::base58_round_trip(key);
}

/// An error is told apart by its kind and by its text.
pub proof fn handshake_error_by_its_text(
    error: HandshakeError,
    message: String,
    cause: IdentityError,
)
    ensures
        error == HandshakeError::InvalidSignature ==> error@ == HandshakeFault::InvalidSignature,
        error == HandshakeError::IdentityError(cause) ==> error@ == HandshakeFault::IdentityError(
            cause@,
        ),
        error == HandshakeError::SerializationError(message) ==> error@
            == HandshakeFault::SerializationError(message@),
        error == HandshakeError::Other(message) ==> error@ == HandshakeFault::Other(message@),
{
}

/// A handshake that is answered is answered from keys that the keychain holds; what went wrong in
/// the keychain is handed on.
pub proof fn answer_is_from_the_keychain<K: KeychainBackend>(
    keychain: &K,
    init: HandshakeInit,
    result: Result<SessionKey, HandshakeError>,
    session: SessionKey,
) -> (keys: ([u8; 32], [u8; 32]))
    requires
        answers_handshake(keychain, init, result),
        result == Ok::<SessionKey, HandshakeError>(session),
    ensures
        keychain.entries()[("chaperone-agreement-key"@, "default"@)] == base58::base58_text(
            keys.0@,
        ),
        keychain.entries()[("chaperone-signed-prekey"@, "default"@)] == base58::base58_text(
            keys.1@,
        ),
        session@ == crypto::hkdf_sha256(
            crypto::x25519_shared(keys.1@, init.identity_key@) + crypto::x25519_shared(
                keys.0@,
                init.ephemeral_key@,
            ) + crypto::x25519_shared(keys.1@, init.ephemeral_key@),
            bytes::utf8("chaperone-x3dh-session-key"@),
            32,
        ),
{
    let agreement = choose|agreement: Result<[u8; 32], IdentityError>| #[trigger]
        identity::loads_key(
            keychain,
            identity::agreement_slot(),
            "Invalid agreement key length"@,
            agreement,
        ) && match agreement {
            Err(error) => result == Err::<SessionKey, HandshakeError>(
                HandshakeError::IdentityError(error),
            ),
            Ok(key) => exists|prekey: Result<[u8; 32], IdentityError>| #[trigger]
                identity::loads_key(
                    keychain,
                    identity::prekey_slot(),
                    "Invalid signed prekey length"@,
                    prekey,
                ) && answers_with(key@, prekey, init, result),
        };
    let prekey = choose|prekey: Result<[u8; 32], IdentityError>| #[trigger]
        identity::loads_key(
            keychain,
            identity::prekey_slot(),
            "Invalid signed prekey length"@,
            prekey,
        ) && answers_with(agreement->Ok_0@, prekey, init, result);
    let first = identity::loaded_key_was_answered(
        keychain,
        identity::agreement_slot(),
        "Invalid agreement key length"@,
        agreement,
    );
    let second = identity::loaded_key_was_answered(
        keychain,
        identity::prekey_slot(),
        "Invalid signed prekey length"@,
        prekey,
    );
    (agreement->Ok_0, prekey->Ok_0)
}

/// A handshake that could not be answered failed on loading the agreement key or, where that was
/// loaded, on loading the prekey, and the error of the keychain is handed on.
pub proof fn failed_answer_hands_the_error_on<K: KeychainBackend>(
    keychain: &K,
    init: HandshakeInit,
    result: Result<SessionKey, HandshakeError>,
) -> (cause: IdentityError)
    requires
        answers_handshake(keychain, init, result),
        result is Err,
    ensures
        result == Err::<SessionKey, HandshakeError>(HandshakeError::IdentityError(cause)),
        identity::loads_key(
            keychain,
            ("chaperone-agreement-key"@, "default"@),
            "Invalid agreement key length"@,
            Err::<[u8; 32], IdentityError>(cause),
        ) || identity::loads_key(
            keychain,
            ("chaperone-signed-prekey"@, "default"@),
            "Invalid signed prekey length"@,
            Err::<[u8; 32], IdentityError>(cause),
        ),
{
    result->Err_0->IdentityError_0
}

} // verus!
