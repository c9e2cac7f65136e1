use chaperone::did_key::{bytes_to_did_key, parse_did_key};
use chaperone::identity::{
    derive_seeds, did_key_to_bytes, format_metadata, identity_from, key_from, parse_metadata,
    parse_stored_key,
    DynamicKeychainBackend, IdentityError, KeychainBackend, LocalIdentity, MockKeychainBackend,
};
use chaperone::identity_skeleton::SkeletonIdentity;
use chaperone::keychain::{lookup_result, removal_result, Lookup, Removal};

#[test]
fn deterministic_seed_produces_same_did_key() {
    let mut keychain = MockKeychainBackend::new();
    keychain.reset();
    let seed = [42u8; 32];
    let identity_1 = LocalIdentity::bootstrap_with_seed(&mut keychain, seed).unwrap();

    keychain.reset();
    let identity_2 = LocalIdentity::bootstrap_with_seed(&mut keychain, seed).unwrap();

    assert_eq!(identity_1.did_key, identity_2.did_key);
    assert!(identity_1.did_key.starts_with("did:key:z6Mk"));
    assert_eq!(
        identity_1.did_key,
        "did:key:z6MkihXa7a84UAU2bhy22BWcBduPeUA1Tvr36ZeFT5R3SYjB"
    );
}

#[test]
fn random_seeds_produce_different_did_keys() {
    let mut keychain = MockKeychainBackend::new();
    let identity_1 = LocalIdentity::bootstrap(&mut keychain).unwrap();

    keychain.reset();
    let identity_2 = LocalIdentity::bootstrap(&mut keychain).unwrap();

    assert_ne!(identity_1.did_key, identity_2.did_key);
}

#[test]
fn private_key_never_appears_in_debug_or_display() {
    let mut keychain = MockKeychainBackend::new();
    let identity = LocalIdentity::bootstrap(&mut keychain).unwrap();

    let debug_str = format!("{:?}", identity);
    let display_str = identity.display_text();

    assert!(!debug_str.contains("private"));
    assert!(!debug_str.contains("secret"));
    assert!(!display_str.contains("private"));
    assert!(!display_str.contains("secret"));

    assert!(debug_str.contains("did_key"));
    assert!(debug_str.contains("created_at"));
    assert!(debug_str.contains("rotation_epoch"));

    let fixed = LocalIdentity { did_key: "did:key:z1".to_string(), created_at: 12, rotation_epoch: 3 };
    assert_eq!(
        fixed.display_text(),
        "LocalIdentity { did_key: did:key:z1, created_at: 12, rotation_epoch: 3 }"
    );
    assert_eq!(
        format!("{:?}", fixed),
        "LocalIdentity { did_key: \"did:key:z1\", created_at: 12, rotation_epoch: 3 }"
    );
}

#[test]
fn test_identity_bootstrap_works_fully_offline() {
    let mut keychain = MockKeychainBackend::default();
    let res = LocalIdentity::bootstrap(&mut keychain);
    assert!(res.is_ok(), "Bootstrap failed: {:?}", res);

    let identity = res.unwrap();
    assert!(identity.did_key.starts_with("did:key:z6Mk"));
    assert_ne!(identity.created_at, 0);
    assert_eq!(identity.rotation_epoch, 0);

    let current_res = LocalIdentity::get_current(&keychain);
    assert!(current_res.is_ok(), "Get current failed: {:?}", current_res);
    let current_identity = current_res.unwrap();
    assert_eq!(identity.did_key, current_identity.did_key);
    assert_eq!(identity.created_at, current_identity.created_at);
}

#[test]
fn two_generated_identities_differ() {
    let id1 = SkeletonIdentity::generate();
    let id2 = SkeletonIdentity::generate();
    assert_ne!(id1.pubkey, id2.pubkey);
    assert_eq!(SkeletonIdentity::from_entropy([3u8; 32]).pubkey, [3u8; 32]);
}

#[test]
fn seeds_are_hashes_of_the_seed_and_a_label() {
    let (signing, agreement) = derive_seeds(&[42u8; 32]);
    assert_eq!(
        signing,
        [
            139, 173, 14, 65, 171, 228, 140, 188, 176, 49, 18, 22, 153, 114, 178, 128, 52, 84, 123,
            249, 249, 107, 251, 7, 171, 66, 204, 214, 15, 119, 179, 211
        ]
    );
    assert_eq!(
        agreement,
        [
            6, 35, 180, 155, 96, 237, 160, 151, 150, 64, 99, 42, 11, 51, 188, 49, 7, 82, 228, 172,
            63, 75, 201, 81, 243, 27, 197, 2, 233, 112, 10, 18
        ]
    );
}

#[test]
fn bootstrap_keeps_both_keys_and_refuses_a_second_time() {
    let mut keychain = MockKeychainBackend::new();
    let identity = LocalIdentity::bootstrap_with_seed(&mut keychain, [42u8; 32]).unwrap();
    assert_eq!(
        keychain.get_password("chaperone-signing-key", "default").unwrap(),
        "AQEiqWniM3fQertN38zxYba76N66cjhBkEcENtqRh4wk"
    );
    assert_eq!(
        keychain.get_password("chaperone-agreement-key", "default").unwrap(),
        "Qy2QmowGPYmA2g4KiGuLXoMUC6EMaNpZR3V4z5VR26D"
    );
    assert_eq!(
        keychain.get_password("chaperone-identity-metadata", "default").unwrap(),
        format!("{},0", identity.created_at)
    );
    assert_eq!(identity.load_agreement_key(&keychain).unwrap(), derive_seeds(&[42u8; 32]).1);
    assert_eq!(
        identity.public_agreement_key(&keychain).unwrap(),
        [
            64, 121, 134, 62, 189, 94, 255, 163, 89, 21, 49, 249, 143, 128, 156, 20, 76, 246, 24,
            217, 209, 26, 160, 40, 193, 169, 113, 113, 184, 97, 45, 87
        ]
    );
    assert!(matches!(
        LocalIdentity::bootstrap_with_seed(&mut keychain, [1u8; 32]),
        Err(IdentityError::AlreadyBootstrapped)
    ));
    assert!(matches!(
        LocalIdentity::record_creation(&mut keychain, String::new(), Err("late".to_string())),
        Err(IdentityError::CorruptExistingIdentity(message)) if message == "late"
    ));
}

#[test]
fn signed_prekeys_are_kept_and_signed() {
    let mut keychain = MockKeychainBackend::new();
    let identity = LocalIdentity::bootstrap_with_seed(&mut keychain, [42u8; 32]).unwrap();
    assert!(matches!(
        identity.load_signed_prekey(&keychain),
        Err(IdentityError::NotBootstrapped)
    ));
    let (first, first_sig) = identity.save_signed_prekey(&mut keychain, &[4u8; 32]).unwrap();
    assert_eq!(identity.load_signed_prekey(&keychain).unwrap(), [4u8; 32]);
    assert_eq!(
        first,
        [
            172, 1, 178, 32, 158, 134, 53, 79, 184, 83, 35, 123, 93, 224, 244, 250, 177, 60, 127,
            203, 244, 51, 166, 28, 1, 147, 105, 97, 127, 236, 241, 11
        ]
    );
    let (second, second_sig) = identity.generate_and_save_signed_prekey(&mut keychain).unwrap();
    assert_ne!(first, second);
    assert_ne!(first_sig, second_sig);
    assert_ne!(identity.load_signed_prekey(&keychain).unwrap(), [4u8; 32]);
}

fn keychain_with(signing: &str, metadata: Option<&str>) -> MockKeychainBackend {
    let mut keychain = MockKeychainBackend::new();
    keychain.set_password("chaperone-signing-key", "default", signing).unwrap();
    if let Some(metadata) = metadata {
        keychain.set_password("chaperone-identity-metadata", "default", metadata).unwrap();
    }
    keychain
}

fn complaint(keychain: &MockKeychainBackend) -> String {
    LocalIdentity::get_current(keychain).unwrap_err().message()
}

#[test]
fn every_fault_of_a_stored_identity_is_told() {
    let signing = "AQEiqWniM3fQertN38zxYba76N66cjhBkEcENtqRh4wk";
    assert_eq!(
        complaint(&MockKeychainBackend::new()),
        "Identity has not been bootstrapped yet"
    );
    assert_eq!(
        complaint(&keychain_with("l", Some("1,0"))),
        "Corrupt existing identity: provided string contained invalid character 'l' at byte 0"
    );
    assert_eq!(
        complaint(&keychain_with("2", Some("1,0"))),
        "Corrupt existing identity: Invalid signing key length"
    );
    assert_eq!(
        complaint(&keychain_with(signing, None)),
        "Identity has not been bootstrapped yet"
    );
    assert_eq!(
        complaint(&keychain_with(signing, Some("1"))),
        "Corrupt existing identity: Invalid metadata format"
    );
    assert_eq!(
        complaint(&keychain_with(signing, Some("x,0"))),
        "Corrupt existing identity: invalid digit found in string"
    );
    assert_eq!(
        complaint(&keychain_with(signing, Some("1,4294967296"))),
        "Corrupt existing identity: number too large to fit in target type"
    );
    let current = LocalIdentity::get_current(&keychain_with(signing, Some("+77,5"))).unwrap();
    assert_eq!(current.created_at, 77);
    assert_eq!(current.rotation_epoch, 5);
}

#[test]
fn metadata_is_read_back() {
    assert_eq!(format_metadata(18446744073709551615, 4294967295), "18446744073709551615,4294967295");
    assert_eq!(
        parse_metadata("18446744073709551615,4294967295").unwrap(),
        (18446744073709551615, 4294967295)
    );
    assert_eq!(format_metadata(0, 0), "0,0");
    assert!(parse_metadata("18446744073709551616,0").is_err());
    assert!(parse_metadata("1,0,").is_err());
    assert!(parse_metadata(",").is_err());
}

#[test]
fn did_keys_are_read_back() {
    let mut key = [0u8; 32];
    for byte in 0..=255u8 {
        key[(byte % 32) as usize] = byte;
        let name = bytes_to_did_key(&key);
        assert!(name.starts_with("did:key:z6Mk"));
        assert_eq!(parse_did_key(&name).unwrap(), key);
        assert_eq!(did_key_to_bytes(&name).unwrap(), key);
        let mut other = key;
        other[0] ^= 1;
        assert_ne!(bytes_to_did_key(&other), name);
    }
    assert_eq!(parse_did_key("did:web:z6Mk").unwrap_err(), "Invalid did:key prefix");
    assert_eq!(
        parse_did_key("did:key:z0").unwrap_err(),
        "provided string contained invalid character '0' at byte 0"
    );
    assert_eq!(
        parse_did_key("did:key:z2").unwrap_err(),
        "Invalid decoded did:key length: 1 (expected 34)"
    );
    let zeros = "1".repeat(34);
    assert_eq!(
        parse_did_key(&format!("did:key:z{}", zeros)).unwrap_err(),
        "Invalid multicodec did:key prefix: [0x0, 0x0]"
    );
    assert!(matches!(
        did_key_to_bytes("nothing"),
        Err(IdentityError::CorruptExistingIdentity(_))
    ));
}

#[test]
fn stored_keys_have_32_bytes() {
    assert_eq!(parse_stored_key(&"1".repeat(32), "short").unwrap(), [0u8; 32]);
    match parse_stored_key(&"1".repeat(31), "short") {
        Err(IdentityError::CorruptExistingIdentity(message)) => assert_eq!(message, "short"),
        other => panic!("{:?}", other),
    }
}

#[test]
fn a_mock_keychain_keeps_the_last_password_of_a_slot() {
    let mut keychain = MockKeychainBackend::new();
    keychain.set_password("s", "u", "1").unwrap();
    keychain.set_password("s", "v", "2").unwrap();
    keychain.set_password("s", "u", "3").unwrap();
    assert_eq!(keychain.get_password("s", "u").unwrap(), "3");
    assert_eq!(keychain.get_password("s", "v").unwrap(), "2");
    keychain.delete_password("s", "u").unwrap();
    keychain.delete_password("s", "u").unwrap();
    assert!(matches!(keychain.get_password("s", "u"), Err(IdentityError::NotBootstrapped)));
    assert_eq!(keychain.get_password("s", "v").unwrap(), "2");
    keychain.reset();
    assert!(keychain.get_password("s", "v").is_err());
}

#[test]
fn a_dynamic_keychain_uses_the_chosen_one() {
    let mut real = MockKeychainBackend::new();
    real.set_password("s", "u", "real").unwrap();
    let mut keychain = DynamicKeychainBackend::new(real, true);
    keychain.set_password("s", "u", "mock").unwrap();
    assert_eq!(keychain.get_password("s", "u").unwrap(), "mock");
    keychain.use_mock = false;
    assert_eq!(keychain.get_password("s", "u").unwrap(), "real");
    keychain.delete_password("s", "u").unwrap();
    assert!(keychain.get_password("s", "u").is_err());
    keychain.use_mock = true;
    assert_eq!(keychain.get_password("s", "u").unwrap(), "mock");
    keychain.reset();
    assert!(keychain.get_password("s", "u").is_err());
}

#[test]
fn outcomes_of_the_system_keychain() {
    assert_eq!(lookup_result(Lookup::Found("x".to_string())).unwrap(), "x");
    assert!(matches!(lookup_result(Lookup::NoEntry), Err(IdentityError::NotBootstrapped)));
    assert_eq!(
        lookup_result(Lookup::Failed("locked".to_string())).unwrap_err().message(),
        "Keychain unavailable: locked"
    );
    assert!(removal_result(Removal::Removed).is_ok());
    assert!(removal_result(Removal::NoEntry).is_ok());
    assert!(matches!(
        removal_result(Removal::Failed("locked".to_string())),
        Err(IdentityError::KeychainUnavailable(_))
    ));
    assert_eq!(IdentityError::AlreadyBootstrapped.message(), "Identity is already bootstrapped");
}

/// A keychain that answers every call with an error.
struct Locked;

impl KeychainBackend for Locked {
    fn entries(&self) -> chaperone::keychain::Contents {
        unreachable!()
    }

    fn dependable(&self) -> bool {
        false
    }

    fn set_password(&mut self, _: &str, _: &str, _: &str) -> Result<(), IdentityError> {
        Err(IdentityError::KeychainUnavailable("no writing".to_string()))
    }

    fn get_password(&self, _: &str, _: &str) -> Result<String, IdentityError> {
        Err(IdentityError::KeychainUnavailable("no reading".to_string()))
    }

    fn delete_password(&mut self, _: &str, _: &str) -> Result<(), IdentityError> {
        Err(IdentityError::KeychainUnavailable("no writing".to_string()))
    }
}

#[test]
fn what_goes_wrong_in_a_keychain_is_handed_on() {
    let mut locked = Locked;
    let current = LocalIdentity::get_current(&locked).unwrap_err().message();
    assert_eq!(current, "Keychain unavailable: no reading");
    let made = LocalIdentity::bootstrap_with_seed(&mut locked, [1u8; 32]).unwrap_err().message();
    assert_eq!(made, "Keychain unavailable: no writing");

    let identity = LocalIdentity { did_key: String::new(), created_at: 0, rotation_epoch: 0 };
    let key = identity.load_agreement_key(&locked).unwrap_err().message();
    assert_eq!(key, "Keychain unavailable: no reading");
    let public = identity.public_agreement_key(&locked).unwrap_err().message();
    assert_eq!(public, "Keychain unavailable: no reading");
    let prekey = identity.save_signed_prekey(&mut locked, &[1u8; 32]).unwrap_err().message();
    assert_eq!(prekey, "Keychain unavailable: no reading");

    let failed = || Err(IdentityError::KeychainUnavailable("gone".to_string()));
    assert_eq!(key_from(failed(), "short").unwrap_err().message(), "Keychain unavailable: gone");
    assert_eq!(key_from(Ok("1".repeat(32)), "short").unwrap(), [0u8; 32]);
    assert_eq!(
        key_from(Ok("1".to_string()), "short").unwrap_err().message(),
        "Corrupt existing identity: short"
    );
    let unread = identity_from(&[1u8; 32], failed()).unwrap_err().message();
    assert_eq!(unread, "Keychain unavailable: gone");
    let (signing, _) = derive_seeds(&[42u8; 32]);
    let read = identity_from(&signing, Ok("7,8".to_string())).unwrap();
    assert_eq!(read.did_key, "did:key:z6MkihXa7a84UAU2bhy22BWcBduPeUA1Tvr36ZeFT5R3SYjB");
    assert_eq!((read.created_at, read.rotation_epoch), (7, 8));
}

#[test]
fn keys_are_written_unless_the_lookup_found_one() {
    let mut keychain = MockKeychainBackend::new();
    let found = LocalIdentity::store_keys_unless(Ok(String::new()), &mut keychain, &[42u8; 32]);
    assert!(matches!(found, Err(IdentityError::AlreadyBootstrapped)));
    assert!(keychain.get_password("chaperone-signing-key", "default").is_err());
    let unread = Err(IdentityError::KeychainUnavailable("gone".to_string()));
    let name = LocalIdentity::store_keys_unless(unread, &mut keychain, &[42u8; 32]).unwrap();
    assert_eq!(name, "did:key:z6MkihXa7a84UAU2bhy22BWcBduPeUA1Tvr36ZeFT5R3SYjB");
    assert!(matches!(
        LocalIdentity::store_keys(&mut keychain, &[42u8; 32]),
        Err(IdentityError::AlreadyBootstrapped)
    ));
}
