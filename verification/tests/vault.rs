use chaperone::vault::{
    assemble_header, decrypt_block, decrypt_protected_vault_key, derive_master_key, encrypt_block,
    encrypt_protected_vault_key, parse_kdf_param, seal_block, sealed_row, stretch_key,
    CryptoError, VaultError, VaultHeader, VaultStore,
};
use chaperone::key_bytes::KeyBytes;
use std::collections::HashMap;

#[test]
fn vault_test_vectors_conform_to_fixed_outputs() {
    let pin = b"supersecretpin123";
    let salt = [1u8; 16];

    let master = derive_master_key(pin, &salt).unwrap();
    assert_eq!(
        master,
        [
            38, 214, 243, 98, 109, 159, 234, 106, 8, 127, 243, 158, 113, 189, 116, 214, 34, 201,
            112, 154, 167, 87, 225, 56, 233, 105, 61, 246, 4, 166, 51, 32
        ]
    );

    let (enc, mac) = stretch_key(&master);
    assert_eq!(
        enc,
        [
            138, 226, 18, 57, 182, 6, 178, 134, 194, 187, 71, 8, 250, 52, 66, 196, 157, 6, 92, 212,
            17, 165, 224, 194, 115, 46, 137, 58, 176, 43, 221, 41
        ]
    );
    assert_eq!(
        mac,
        [
            197, 224, 40, 135, 86, 149, 149, 176, 125, 56, 128, 144, 22, 164, 120, 176, 160, 12, 80,
            83, 178, 54, 152, 174, 147, 146, 10, 183, 120, 127, 163, 41
        ]
    );
}

#[test]
fn test_unlock_with_correct_pin_succeeds() {
    let mut store = VaultStore::new();
    let pin = b"mypassword123";
    assert!(!store.is_initialized());

    let vault_key = store.initialize_vault(pin).unwrap();
    assert!(store.is_initialized());

    match store.unlock(pin) {
        Ok(handle) => assert!(handle.holds_key(&vault_key)),
        Err(error) => panic!("{:?}", error),
    }
}

#[test]
fn test_unlock_with_wrong_pin_fails_cleanly() {
    let mut store = VaultStore::new();
    let pin = b"mypassword123";
    let wrong_pin = b"wrongpassword123";
    store.initialize_vault(pin).unwrap();

    let res = store.unlock(wrong_pin);
    assert!(res.is_err());
    match res.err().unwrap() {
        VaultError::Crypto(_) | VaultError::Other(_) => {}
        other => panic!("Expected crypto or other error, got: {:?}", other),
    }
}

#[test]
fn test_encrypt_decrypt_row_different_ciphertexts_proves_unique_nonces() {
    let store = VaultStore::new();
    let vault_key = [7u8; 32];
    let plaintext = b"credential-payload-bytes";

    let (ct1, nonce1) = store.encrypt_row(&vault_key, plaintext).unwrap();
    let (ct2, nonce2) = store.encrypt_row(&vault_key, plaintext).unwrap();
    assert_ne!(nonce1, nonce2);
    assert_ne!(ct1, ct2);

    let pt1 = store.decrypt_row(&vault_key, &ct1, &nonce1).unwrap();
    let pt2 = store.decrypt_row(&vault_key, &ct2, &nonce2).unwrap();
    assert_eq!(pt1, plaintext);
    assert_eq!(pt2, plaintext);
}

#[test]
fn test_database_round_trip_encrypted_credentials() {
    let mut store = VaultStore::new();
    let vault_key = [15u8; 32];
    let id = b"service-id-abc";
    let secret = b"my-extremely-secret-token";

    store.insert_credential(&vault_key, id, secret).unwrap();
    let retrieved = store.read_credential(&vault_key, id).unwrap();
    assert_eq!(retrieved, secret);

    let raw_ct: Vec<u8> = store.rows[0].ciphertext.clone();
    assert_ne!(raw_ct, secret);
    assert_eq!(store.rows[0].nonce.len(), 12);
    assert!(store.rows[0].created_at > 0);
}

#[test]
fn test_random_vault_operations() {
    let mut store = VaultStore::new();
    let pin = b"proptest-secret-pin-999";
    store.initialize_vault(pin).unwrap();
    let mut handle = match store.unlock(pin) {
        Ok(handle) => handle,
        Err(error) => panic!("{:?}", error),
    };

    let mut shadow: HashMap<[u8; 16], Vec<u8>> = HashMap::new();
    let mut state: u64 = 7;
    for _ in 0..200 {
        state = state.wrapping_mul(6364136223846793005).wrapping_add(1442695040888963407);
        let id = [(state >> 33) as u8 % 11; 16];
        if (state >> 40) % 2 == 0 {
            let value = format!("random-data-payload-{}", state).into_bytes();
            handle.write(&id, &value).unwrap();
            shadow.insert(id, value);
        } else {
            let read = handle.read(&id);
            match shadow.get(&id) {
                Some(expected) => assert_eq!(&read.unwrap(), expected),
                None => assert!(matches!(read, Err(VaultError::NotFound))),
            }
        }
    }
    assert_eq!(handle.store.rows.len(), shadow.len());
    let store = handle.lock();
    assert_eq!(store.rows.len(), shadow.len());
}

#[test]
fn locked_handle_holds_no_key() {
    let mut store = VaultStore::new();
    store.initialize_vault(b"1234").unwrap();
    let mut handle = match store.unlock(b"1234") {
        Ok(handle) => handle,
        Err(error) => panic!("{:?}", error),
    };
    assert!(!handle.holds_key(&[0u8; 32]));
    assert_eq!(handle.debug_text(), "VaultHandle { vault_key: \"<redacted>\" }");
    handle.wipe();
    assert!(handle.holds_key(&[0u8; 32]));
}

#[test]
fn sealed_blocks_match_a_known_ciphertext() {
    let key: [u8; 32] = [
        0x80, 0x81, 0x82, 0x83, 0x84, 0x85, 0x86, 0x87, 0x88, 0x89, 0x8a, 0x8b, 0x8c, 0x8d, 0x8e,
        0x8f, 0x90, 0x91, 0x92, 0x93, 0x94, 0x95, 0x96, 0x97, 0x98, 0x99, 0x9a, 0x9b, 0x9c, 0x9d,
        0x9e, 0x9f,
    ];
    let nonce: [u8; 12] = [7, 0, 0, 0, 0x40, 0x41, 0x42, 0x43, 0x44, 0x45, 0x46, 0x47];
    let plaintext = b"Ladies and Gentlemen of the class of '99";
    let sealed = seal_block(&key, &nonce, plaintext).unwrap();
    assert_eq!(sealed.len(), plaintext.len() + 16);
    assert_eq!(
        &sealed[..16],
        &[
            0xd3, 0x1a, 0x8d, 0x34, 0x64, 0x8e, 0x60, 0xdb, 0x7b, 0x86, 0xaf, 0xbc, 0x53, 0xef,
            0x7e, 0xc2
        ]
    );
    assert_eq!(decrypt_block(&key, &sealed, &nonce).unwrap(), plaintext);
}

#[test]
fn a_changed_ciphertext_does_not_open() {
    let key = [9u8; 32];
    let (mut sealed, nonce) = encrypt_block(&key, b"payload").unwrap();
    assert_eq!(decrypt_block(&key, &sealed, &nonce).unwrap(), b"payload");
    for i in 0..sealed.len() {
        sealed[i] ^= 1;
        match decrypt_block(&key, &sealed, &nonce) {
            Err(CryptoError::Aead(message)) => assert_eq!(message, "ring::error::Unspecified"),
            other => panic!("{:?}", other),
        }
        sealed[i] ^= 1;
    }
    assert!(decrypt_block(&key, &[], &nonce).is_err());
}

#[test]
fn protected_vault_key_opens_only_at_its_length() {
    let stretched = ([1u8; 32], [2u8; 32]);
    let (sealed, nonce) = encrypt_protected_vault_key(&stretched, &[5u8; 32]).unwrap();
    assert_eq!(decrypt_protected_vault_key(&stretched, &sealed, &nonce).unwrap(), [5u8; 32]);

    let short = seal_block(&stretched.0, &nonce, &[5u8; 31]).unwrap();
    match decrypt_protected_vault_key(&stretched, &short, &nonce) {
        Err(CryptoError::Other(message)) => {
            assert_eq!(message, "Decrypted vault key has invalid length")
        }
        other => panic!("{:?}", other),
    }
    assert!(matches!(
        decrypt_protected_vault_key(&([3u8; 32], [2u8; 32]), &sealed, &nonce),
        Err(CryptoError::Aead(_))
    ));
}

#[test]
fn header_parameters_are_written_and_read() {
    let header = assemble_header(&[1u8; 16], &(vec![7, 8], [1u8; 12]), &(vec![9], [2u8; 12]));
    assert_eq!(header.schema_version, 1);
    assert_eq!(header.kdf_algo, "argon2id");
    assert_eq!(header.kdf_params, "m=19456,t=2,p=1,salt=8C2kCzsB2fJy9MiZos1mS");
    assert_eq!(header.sealed_key, [1, 1, 1, 1, 1, 1, 1, 1, 1, 1, 1, 1, 7, 8]);
    assert_eq!(header.sealed_check, [2, 2, 2, 2, 2, 2, 2, 2, 2, 2, 2, 2, 9]);
    let salted = assemble_header(
        &[0, 1, 2, 3, 4, 5, 6, 7, 8, 9, 10, 11, 12, 13, 14, 15],
        &(vec![], [0u8; 12]),
        &(vec![], [0u8; 12]),
    );
    assert_eq!(parse_kdf_param(&salted.kdf_params, "salt").unwrap(), "12drXXUifSrRnXLGbXg8E");
    assert_eq!(parse_kdf_param(&salted.kdf_params, "m").unwrap(), "19456");
    assert_eq!(parse_kdf_param("a=1=2,b,a=3,a=4", "a").unwrap(), "3");
    match parse_kdf_param("", "salt") {
        Err(error) => assert_eq!(error.message(), "Vault error: Missing parameter: salt"),
        Ok(value) => panic!("{}", value),
    }
}

fn header_with(kdf_params: &str, sealed_key: Vec<u8>, sealed_check: Vec<u8>) -> VaultHeader {
    VaultHeader {
        schema_version: 1,
        kdf_algo: "argon2id".to_string(),
        kdf_params: kdf_params.to_string(),
        sealed_key,
        sealed_check,
    }
}

fn refusal(header: VaultHeader, pin: &[u8]) -> String {
    header.unlock_key(pin).unwrap_err().message()
}

#[test]
fn every_fault_of_a_header_is_told() {
    let params = "m=19456,t=2,p=1,salt=8C2kCzsB2fJy9MiZos1mS";
    let (_, check_key) = stretch_key(&derive_master_key(b"pin", &[1u8; 16]).unwrap());
    let nonce = [3u8; 12];
    let mut check = nonce.to_vec();
    check.extend(seal_block(&check_key, &nonce, b"chaperone-vault-check-bytes-3210").unwrap());
    let mut other_check = nonce.to_vec();
    other_check.extend(seal_block(&check_key, &nonce, b"something else").unwrap());

    assert_eq!(
        refusal(header_with("m=1", vec![], vec![]), b"pin"),
        "Vault error: Missing parameter: salt"
    );
    assert_eq!(
        refusal(header_with("salt=0", vec![], vec![]), b"pin"),
        "Vault error: provided string contained invalid character '0' at byte 0"
    );
    assert_eq!(
        refusal(header_with("salt=8C2", vec![], vec![]), b"pin"),
        "Vault error: Invalid salt length in db"
    );
    assert_eq!(
        refusal(header_with(params, vec![], vec![0; 11]), b"pin"),
        "Vault error: Invalid check block length"
    );
    assert_eq!(
        refusal(header_with(params, vec![], check.clone()), b"wrong"),
        "Cryptographic error: Cryptographic error: Incorrect PIN"
    );
    assert_eq!(
        refusal(header_with(params, vec![], other_check), b"pin"),
        "Cryptographic error: Cryptographic error: Incorrect PIN"
    );
    assert_eq!(
        refusal(header_with(params, vec![0; 11], check.clone()), b"pin"),
        "Vault error: Invalid protected key length"
    );
    assert_eq!(
        refusal(header_with(params, vec![0; 60], check), b"pin"),
        "Cryptographic error: AEAD error: ring::error::Unspecified"
    );
    assert_eq!(
        VaultStore::new().unlock_key(b"pin").unwrap_err().message(),
        "Vault error: Vault not initialized"
    );
}

#[test]
fn rows_replace_each_other_by_id() {
    let mut store = VaultStore::new();
    store.put_credential(sealed_row(b"a", vec![1], &[0u8; 12], 5));
    store.put_credential(sealed_row(b"b", vec![2], &[0u8; 12], 6));
    store.put_credential(sealed_row(b"a", vec![3], &[0u8; 12], 7));
    assert_eq!(store.rows.len(), 2);
    assert_eq!(store.rows[0].ciphertext, [3]);
    assert_eq!(store.rows[0].created_at, 7);

    let mut short = sealed_row(b"c", vec![4], &[0u8; 12], 8);
    short.nonce.pop();
    store.put_credential(short);
    match store.read_credential(&[0u8; 32], b"c") {
        Err(error) => assert_eq!(error.message(), "Vault error: Invalid nonce length in db"),
        Ok(data) => panic!("{:?}", data),
    }
    assert!(matches!(store.read_credential(&[0u8; 32], b"a"), Err(VaultError::Crypto(_))));
    assert_eq!(
        store.read_credential(&[0u8; 32], b"d").unwrap_err().message(),
        "Credential not found"
    );
}

#[test]
fn vault_errors_in_words() {
    assert_eq!(VaultError::Database("x".to_string()).message(), "Database error: x");
    assert_eq!(VaultError::Migration("x".to_string()).message(), "Migration error: x");
    assert_eq!(VaultError::InvalidPath.message(), "Invalid database path");
    let error = VaultError::from(CryptoError::Argon2("x".to_string()));
    assert_eq!(error.message(), "Cryptographic error: Argon2 error: x");
}

#[test]
fn the_secret_key_verifier_is_kept() {
    let mut store = VaultStore::new();
    assert!(matches!(store.get_secret_key_verifier(), Err(VaultError::NotFound)));
    store.set_secret_key_verifier(&[8u8; 32]);
    assert_eq!(store.get_secret_key_verifier().unwrap(), [8u8; 32]);
    assert!(!store.is_protected());
    store.mark_protected();
    assert!(store.is_protected());
}

#[test]
fn wiped_key_bytes_are_zero() {
    let mut key = KeyBytes { bytes: [5u8; 32] };
    key.wipe();
    assert_eq!(key.bytes, [0u8; 32]);
    assert!(std::mem::needs_drop::<KeyBytes>());
    assert!(std::mem::needs_drop::<chaperone::rotation::Ed25519Keypair>());
}
