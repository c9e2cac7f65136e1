//! The cryptographic primitives that the library builds on. Each function here hands plain bytes
//! to an outside crate and says of the result what the rest of the library relies on.
use vstd::prelude::*;

verus! {

/// The SHA-256 digest of `data`.
pub uninterp spec fn sha256_digest(data: Seq<u8>) -> Seq<u8>;

/// Calls `sha2::Sha256::digest`. The digest depends on the data alone.
#[verifier::external_body]
pub(crate) fn sha256(data: &[u8]) -> (digest: [u8; 32])
    ensures
        digest@ == sha256_digest(data@),
{
    <sha2::Sha256 as sha2::Digest>::digest(data).into()
}

/// The first `len` bytes that HKDF-SHA256 without a salt expands from `secret` for `info`.
pub uninterp spec fn hkdf_sha256(secret: Seq<u8>, info: Seq<u8>, len: nat) -> Seq<u8>;

/// Calls `hkdf::Hkdf::<Sha256>::new` without a salt and then `expand`, which fails only for more
/// than 255 blocks of 32 bytes. The output depends on the secret, the info and its length.
#[verifier::external_body]
pub(crate) fn hkdf<const N: usize>(secret: &[u8], info: &[u8]) -> (output: [u8; N])
    requires
        N <= 8160,
    ensures
        output@ == hkdf_sha256(secret@, info@, N as nat),
{
    let mut output = [0u8; N];
    hkdf::Hkdf::<sha2::Sha256>::new(None, secret)
        .expand(info, &mut output)
        .expect("at most 255 blocks are expanded");
    output
}

/// The 32 bytes that Argon2id, version 0x13, derives from a password and a salt.
pub uninterp spec fn argon2id_key(
    password: Seq<u8>,
    salt: Seq<u8>,
    memory: u32,
    passes: u32,
    lanes: u32,
) -> Seq<u8>;

/// Calls `argon2::Params::new` for 32 bytes of output and `Argon2::hash_password_into`. The costs
/// and the salt that are admitted here are those that the crate accepts, so that it fails only on
/// a password of more than 4294967295 bytes.
#[verifier::external_body]
pub(crate) fn argon2id(password: &[u8], salt: &[u8], memory: u32, passes: u32, lanes: u32) -> (result:
    Result<[u8; 32], String>)
    requires
        1 <= lanes <= 0xff_ffff,
        8 * lanes <= memory,
        1 <= passes,
        8 <= salt@.len() <= 0xffff_ffff,
    ensures
        result is Ok <==> password@.len() <= 0xffff_ffff,
        result matches Ok(key) ==> key@ == argon2id_key(
            password@,
            salt@,
            memory,
            passes,
            lanes,
        ),
        result matches Err(message) ==> message@ == "password is too long"@,
{
    let params = match argon2::Params::new(memory, passes, lanes, Some(32)) {
        Ok(params) => params,
        Err(e) => return Err(e.to_string()),
    };
    let hasher = argon2::Argon2::new(argon2::Algorithm::Argon2id, argon2::Version::V0x13, params);
    let mut key = [0u8; 32];
    match hasher.hash_password_into(password, salt, &mut key) {
        Ok(()) => Ok(key),
        Err(e) => Err(e.to_string()),
    }
}

/// The most bytes that ChaCha20-Poly1305 seals at once.
pub const SEAL_LIMIT: u64 = 274_877_906_880;

/// The ciphertext and tag of `plaintext` under ChaCha20-Poly1305 without associated data.
pub uninterp spec fn sealed(key: Seq<u8>, nonce: Seq<u8>, plaintext: Seq<u8>) -> Seq<u8>;

/// The plaintext of a ciphertext and tag under ChaCha20-Poly1305 without associated data, if the
/// tag is right.
pub uninterp spec fn opened(key: Seq<u8>, nonce: Seq<u8>, ciphertext: Seq<u8>) -> Option<Seq<u8>>;

/// Calls `seal_in_place_append_tag` of `ring::aead::LessSafeKey` with `CHACHA20_POLY1305` and no
/// associated data. It fails only on a plaintext over the limit; else it gives the ciphertext
/// with its tag of 16 bytes behind, which depends on the arguments alone, and which opening under
/// the same key and nonce turns back into the plaintext.
#[verifier::external_body]
pub(crate) fn seal(key: &[u8; 32], nonce: &[u8; 12], plaintext: &[u8]) -> (result: Result<
    Vec<u8>,
    String,
>)
    ensures
        result is Ok <==> plaintext@.len() <= SEAL_LIMIT,
        result matches Ok(ciphertext) ==> {
            &&& ciphertext@ == sealed(key@, nonce@, plaintext@)
            &&& ciphertext@.len() == plaintext@.len() + 16
            &&& opened(key@, nonce@, ciphertext@) == Some(plaintext@)
        },
        result matches Err(message) ==> message@ == "ring::error::Unspecified"@,
{
    let key = match ring::aead::UnboundKey::new(&ring::aead::CHACHA20_POLY1305, key) {
        Ok(key) => ring::aead::LessSafeKey::new(key),
        Err(e) => return Err(e.to_string()),
    };
    let nonce = ring::aead::Nonce::assume_unique_for_key(*nonce);
    let mut in_out = plaintext.to_vec();
    match key.seal_in_place_append_tag(nonce, ring::aead::Aad::empty(), &mut in_out) {
        Ok(()) => Ok(in_out),
        Err(e) => Err(e.to_string()),
    }
}

/// Calls `open_in_place` of `ring::aead::LessSafeKey` with `CHACHA20_POLY1305` and no associated
/// data. Whether it succeeds, and with which plaintext, depends on the arguments alone. A
/// ciphertext that opens is the one that sealing its plaintext under the same key and nonce gives.
#[verifier::external_body]
pub(crate) fn open(key: &[u8; 32], nonce: &[u8; 12], ciphertext: &[u8]) -> (result: Result<
    Vec<u8>,
    String,
>)
    ensures
        result is Ok <==> opened(key@, nonce@, ciphertext@) is Some,
        result matches Ok(plaintext) ==> {
            &&& opened(key@, nonce@, ciphertext@) == Some(plaintext@)
            &&& ciphertext@.len() == plaintext@.len() + 16
            &&& ciphertext@ == sealed(key@, nonce@, plaintext@)
        },
        result matches Err(message) ==> message@ == "ring::error::Unspecified"@,
{
    let key = match ring::aead::UnboundKey::new(&ring::aead::CHACHA20_POLY1305, key) {
        Ok(key) => ring::aead::LessSafeKey::new(key),
        Err(e) => return Err(e.to_string()),
    };
    let nonce = ring::aead::Nonce::assume_unique_for_key(*nonce);
    let mut in_out = ciphertext.to_vec();
    match key.open_in_place(nonce, ring::aead::Aad::empty(), &mut in_out) {
        Ok(plaintext) => Ok(plaintext.to_vec()),
        Err(e) => Err(e.to_string()),
    }
}

/// The Ed25519 public key of a signing key.
pub uninterp spec fn ed25519_public(signing: Seq<u8>) -> Seq<u8>;

/// What is wrong with 32 bytes as an Ed25519 public key, if anything.
pub uninterp spec fn ed25519_key_fault(public: Seq<u8>) -> Option<Seq<char>>;

/// The Ed25519 signature of a message.
pub uninterp spec fn ed25519_signature(signing: Seq<u8>, message: Seq<u8>) -> Seq<u8>;

/// What is wrong with a signature of a message under a public key, if anything.
pub uninterp spec fn ed25519_fault(
    public: Seq<u8>,
    message: Seq<u8>,
    signature: Seq<u8>,
) -> Option<Seq<char>>;

/// Calls `ed25519_dalek::SigningKey::from_bytes` and takes the bytes of its `verifying_key`. They
/// depend on the signing key alone and are a public key.
#[verifier::external_body]
pub(crate) fn ed25519_public_key(signing: &[u8; 32]) -> (public: [u8; 32])
    ensures
        public@ == ed25519_public(signing@),
        ed25519_key_fault(public@) is None,
{
    ed25519_dalek::SigningKey::from_bytes(signing).verifying_key().to_bytes()
}

/// Calls `ed25519_dalek::SigningKey::sign`. The signature depends on the signing key and the
/// message alone, and verifies under the public key of the signing key.
#[verifier::external_body]
pub(crate) fn ed25519_sign(signing: &[u8; 32], message: &[u8]) -> (signature: [u8; 64])
    ensures
        signature@ == ed25519_signature(signing@, message@),
        ed25519_fault(ed25519_public(signing@), message@, signature@) is None,
{
    let signing = ed25519_dalek::SigningKey::from_bytes(signing);
    ed25519_dalek::Signer::sign(&signing, message).to_bytes()
}

/// Calls `ed25519_dalek::VerifyingKey::from_bytes`, which refuses bytes that are no point of the
/// curve. The outcome depends on the bytes alone.
#[verifier::external_body]
pub(crate) fn ed25519_check_key(public: &[u8; 32]) -> (result: Result<(), String>)
    ensures
        result is Ok <==> ed25519_key_fault(public@) is None,
        result matches Err(message) ==> ed25519_key_fault(public@) == Some(message@),
{
    match ed25519_dalek::VerifyingKey::from_bytes(public) {
        Ok(_) => Ok(()),
        Err(e) => Err(e.to_string()),
    }
}

/// Calls `verify` of the `ed25519_dalek::VerifyingKey` of the bytes. The outcome depends on the
/// key, the message and the signature alone.
#[verifier::external_body]
pub(crate) fn ed25519_verify(public: &[u8; 32], message: &[u8], signature: &[u8; 64]) -> (result:
    Result<(), String>)
    requires
        ed25519_key_fault(public@) is None,
    ensures
        result is Ok <==> ed25519_fault(public@, message@, signature@) is None,
        result matches Err(text) ==> ed25519_fault(public@, message@, signature@) == Some(text@),
{
    let signature = ed25519_dalek::Signature::from_bytes(signature);
    let outcome = ed25519_dalek::VerifyingKey::from_bytes(public)
        .and_then(|key| ed25519_dalek::Verifier::verify(&key, message, &signature));
    match outcome {
        Ok(()) => Ok(()),
        Err(e) => Err(e.to_string()),
    }
}

/// The X25519 public key of a secret.
pub uninterp spec fn x25519_public(secret: Seq<u8>) -> Seq<u8>;

/// The secret that X25519 gives for a secret and another party's public key.
pub uninterp spec fn x25519_shared(secret: Seq<u8>, public: Seq<u8>) -> Seq<u8>;

/// Calls `x25519_dalek::PublicKey::from` on the `StaticSecret` of the bytes. The public key
/// depends on the secret alone.
#[verifier::external_body]
pub(crate) fn x25519_public_key(secret: &[u8; 32]) -> (public: [u8; 32])
    ensures
        public@ == x25519_public(secret@),
{
    x25519_dalek::PublicKey::from(&x25519_dalek::StaticSecret::from(*secret)).to_bytes()
}

/// Calls `x25519_dalek::StaticSecret::diffie_hellman`. The shared secret depends on the secret and
/// the public key alone. Where the public key is that of another secret, the other party gets the
/// same shared secret from its secret and this party's public key.
#[verifier::external_body]
pub(crate) fn x25519(secret: &[u8; 32], public: &[u8; 32]) -> (shared: [u8; 32])
    ensures
        shared@ == x25519_shared(secret@, public@),
        forall|other: Seq<u8>|
            other.len() == 32 && public@ == #[trigger] x25519_public(other) ==> shared@
                == x25519_shared(other, x25519_public(secret@)),
{
    let secret = x25519_dalek::StaticSecret::from(*secret);
    secret.diffie_hellman(&x25519_dalek::PublicKey::from(*public)).to_bytes()
}

} // verus!
