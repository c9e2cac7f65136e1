use chaperone::identity::{LocalIdentity, MockKeychainBackend};
use chaperone::rotation::{
    did_key_to_bytes, signature_from_bytes, take_last_generated_key, Ed25519Keypair, RotationChain,
    RotationError, RotationRecord,
};
use rand::RngCore;
use sha2::Digest;

fn initial_key(seed: [u8; 32]) -> Ed25519Keypair {
    let mut hasher = sha2::Sha256::new();
    hasher.update(seed);
    hasher.update(b"chaperone-signing-key");
    let signing_seed: [u8; 32] = hasher.finalize().into();
    Ed25519Keypair::from_bytes(&signing_seed)
}

fn chain_of(seed: [u8; 32], rotations: u32) -> RotationChain {
    let mut keychain = MockKeychainBackend::new();
    let identity = LocalIdentity::bootstrap_with_seed(&mut keychain, seed).unwrap();
    let mut chain = RotationChain::genesis(&identity);
    let mut current_key = initial_key(seed);
    let mut slot: Option<Ed25519Keypair> = None;
    for _ in 0..rotations {
        chain.rotate(&current_key, &mut slot).unwrap();
        current_key = take_last_generated_key(&mut slot).unwrap();
    }
    chain
}

#[test]
fn test_synthetic_5_epoch_chain_passes() {
    let mut keychain = MockKeychainBackend::new();
    let seed = [42u8; 32];
    let identity = LocalIdentity::bootstrap_with_seed(&mut keychain, seed).unwrap();

    let mut chain = RotationChain::genesis(&identity);
    assert_eq!(chain.records().len(), 1);
    assert_eq!(chain.records()[0].epoch, 0);

    let mut current_key = initial_key(seed);
    let mut slot: Option<Ed25519Keypair> = None;
    for i in 1..=5 {
        let record = chain.rotate(&current_key, &mut slot).unwrap();
        assert_eq!(record.epoch, i);
        current_key = take_last_generated_key(&mut slot).unwrap();
    }
    assert!(take_last_generated_key(&mut slot).is_none());

    assert_eq!(chain.records().len(), 6);
    assert!(chain.verify_chain().is_ok());
}

#[test]
fn test_tampered_pubkey_fails_correct_epoch() {
    let mut chain = chain_of([1u8; 32], 5);

    chain.records_mut()[3].new_pubkey[0] ^= 0xFF;

    match chain.verify_chain() {
        Err(RotationError::SignatureVerificationFailed(epoch, _)) => {
            assert_eq!(epoch, 3);
        }
        other => panic!("Expected SignatureVerificationFailed(3), got {:?}", other),
    }
}

#[test]
fn test_forged_rotation_record_fails() {
    let mut chain = chain_of([2u8; 32], 5);

    let mut random_seed = [0u8; 32];
    rand::rngs::OsRng.fill_bytes(&mut random_seed);
    let random_key = Ed25519Keypair::from_bytes(&random_seed);

    let mut msg = Vec::new();
    msg.extend_from_slice(&3u32.to_be_bytes());
    msg.extend_from_slice(&chain.records()[3].new_pubkey);
    msg.extend_from_slice(&chain.records()[3].timestamp.to_be_bytes());

    let forged_sig = random_key.sign(&msg);
    chain.records_mut()[3].signed_by_previous_key = forged_sig;

    match chain.verify_chain() {
        Err(RotationError::SignatureVerificationFailed(epoch, _)) => {
            assert_eq!(epoch, 3);
        }
        other => panic!("Expected SignatureVerificationFailed(3), got {:?}", other),
    }
}

#[test]
fn a_rotation_with_given_key_and_time_is_exact() {
    let key = Ed25519Keypair::from_bytes(&[7u8; 32]);
    assert_eq!(key.to_bytes(), [7u8; 32]);
    assert_eq!(
        key.verifying_key(),
        [
            234, 74, 108, 99, 226, 156, 82, 10, 190, 245, 80, 123, 19, 46, 197, 249, 149, 71, 118,
            174, 190, 190, 123, 146, 66, 30, 234, 105, 20, 70, 210, 44
        ]
    );
    let mut chain = RotationChain::from_records(vec![RotationRecord {
        epoch: 0,
        new_pubkey: key.verifying_key(),
        signed_by_previous_key: [0u8; 64],
        timestamp: 5,
    }]);
    let mut slot: Option<Ed25519Keypair> = None;
    let record = chain.rotate_to(&key, &[8u8; 32], Ok(1700000000), &mut slot).unwrap().clone();
    assert_eq!(
        record,
        RotationRecord {
            epoch: 1,
            new_pubkey: [
                19, 152, 246, 44, 109, 26, 69, 124, 81, 186, 106, 75, 95, 61, 189, 47, 105, 252,
                169, 50, 22, 33, 141, 200, 153, 126, 65, 107, 209, 125, 147, 202
            ],
            signed_by_previous_key: [
                209, 6, 24, 195, 165, 248, 15, 53, 159, 13, 140, 69, 147, 178, 88, 227, 138, 157,
                185, 160, 222, 120, 19, 83, 67, 171, 3, 11, 233, 183, 252, 43, 26, 215, 172, 73,
                108, 151, 99, 170, 52, 199, 100, 148, 223, 148, 142, 34, 190, 153, 142, 24, 199,
                47, 234, 87, 193, 218, 2, 84, 21, 99, 39, 13
            ],
            timestamp: 1700000000,
        }
    );
    assert_eq!(take_last_generated_key(&mut slot).unwrap().to_bytes(), [8u8; 32]);
    assert!(chain.verify_chain().is_ok());
}

#[test]
fn every_fault_of_a_chain_is_told() {
    let empty = RotationChain::from_records(vec![]);
    assert_eq!(empty.verify_chain().unwrap_err().message(), "Rotation chain is empty");

    let mut late = chain_of([3u8; 32], 1);
    late.records_mut()[0].epoch = 4;
    assert_eq!(
        late.verify_chain().unwrap_err().message(),
        "Invalid genesis record epoch: 4 (expected 0)"
    );

    let mut gap = chain_of([3u8; 32], 3);
    gap.records_mut().remove(2);
    assert_eq!(
        gap.verify_chain().unwrap_err().message(),
        "Non-sequential epoch sequence: expected 2, got 3"
    );

    let mut no_point = chain_of([3u8; 32], 1);
    no_point.records_mut()[0].new_pubkey = [2u8; 32];
    match no_point.verify_chain() {
        Err(RotationError::InvalidPublicKey(epoch, message)) => {
            assert_eq!(epoch, 1);
            assert_eq!(
                RotationError::InvalidPublicKey(epoch, message.clone()).message(),
                format!("Invalid public key at epoch 1: {}", message)
            );
        }
        other => panic!("{:?}", other),
    }

    let mut moved = chain_of([3u8; 32], 2);
    moved.records_mut()[2].timestamp += 1;
    match moved.verify_chain() {
        Err(RotationError::SignatureVerificationFailed(epoch, message)) => {
            assert_eq!(epoch, 2);
            assert_eq!(
                RotationError::SignatureVerificationFailed(epoch, message.clone()).message(),
                format!("Signature verification failed at epoch 2: {}", message)
            );
        }
        other => panic!("{:?}", other),
    }
}

#[test]
fn a_rotation_that_fails_changes_nothing() {
    let key = Ed25519Keypair::from_bytes(&[7u8; 32]);
    let mut slot: Option<Ed25519Keypair> = None;
    let mut empty = RotationChain::from_records(vec![]);
    assert!(matches!(empty.rotate(&key, &mut slot), Err(RotationError::EmptyChain)));

    let mut chain = chain_of([4u8; 32], 1);
    let before = chain.clone();
    match chain.rotate_to(&key, &[8u8; 32], Err("late".to_string()), &mut slot) {
        Err(error) => assert_eq!(error.message(), "Identity conversion error: late"),
        Ok(record) => panic!("{:?}", record),
    }
    assert_eq!(chain, before);
    assert!(slot.is_none());
}

#[test]
fn a_rotation_by_another_key_does_not_verify() {
    let mut chain = chain_of([5u8; 32], 2);
    let mut slot: Option<Ed25519Keypair> = None;
    chain.rotate(&Ed25519Keypair::from_bytes(&[9u8; 32]), &mut slot).unwrap();
    assert!(matches!(
        chain.verify_chain(),
        Err(RotationError::SignatureVerificationFailed(3, _))
    ));
    chain.records_mut().pop();
    assert!(chain.verify_chain().is_ok());
}

#[test]
fn signatures_have_64_bytes() {
    assert_eq!(signature_from_bytes(&[6u8; 64]).unwrap(), [6u8; 64]);
    assert_eq!(
        signature_from_bytes(&[6u8; 63]).unwrap_err(),
        "Expected 64 bytes for signature, got 63"
    );
    assert!(matches!(
        did_key_to_bytes("x"),
        Err(RotationError::IdentityConversionError(message)) if message == "Invalid did:key prefix"
    ));
}
