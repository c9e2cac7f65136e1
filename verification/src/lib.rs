//! Local identities, signed key rotation, key agreement and an encrypted vault.
pub mod base32;
pub mod base58;
pub mod bytes;
pub mod clock;
pub mod crypto;
pub mod did_key;
pub mod entropy;
pub mod handshake;
pub mod identity;
pub mod identity_skeleton;
pub mod key_bytes;
pub mod keychain;
pub mod logging;
pub mod numeral;
pub mod onboarding;
pub mod rotation;
pub mod secret_key;
pub mod text;
pub mod vault;
