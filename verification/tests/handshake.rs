use chaperone::handshake::{
    initiate, initiate_with, respond, respond_with, try_initiate, HandshakeError, HandshakeInit,
    HandshakeMessage,
};
use chaperone::identity::{IdentityError, KeychainBackend, LocalIdentity, MockKeychainBackend};
use prost::bytes::{Buf, BufMut};
use prost::encoding::{self, DecodeContext, WireType};
use prost::{DecodeError, Message};

struct Bob {
    keychain: MockKeychainBackend,
    identity: LocalIdentity,
    identity_pub: [u8; 32],
    prekey_pub: [u8; 32],
    prekey_sig: [u8; 64],
}

fn setup_bob() -> Bob {
    let mut keychain = MockKeychainBackend::new();
    let identity = LocalIdentity::bootstrap_with_seed(&mut keychain, [2u8; 32]).unwrap();
    let (prekey_pub, prekey_sig) = identity.generate_and_save_signed_prekey(&mut keychain).unwrap();
    let identity_pub = identity.public_agreement_key(&keychain).unwrap();
    Bob { keychain, identity, identity_pub, prekey_pub, prekey_sig }
}

fn setup_alice() -> (MockKeychainBackend, LocalIdentity) {
    let mut keychain = MockKeychainBackend::new();
    let identity = LocalIdentity::bootstrap_with_seed(&mut keychain, [1u8; 32]).unwrap();
    (keychain, identity)
}

#[test]
fn test_classical_x3dh_agreement_success() {
    let bob = setup_bob();
    let (alice_keychain, alice) = setup_alice();

    let (mut init, alice_session_key) =
        initiate(&alice_keychain, &alice, bob.identity_pub, bob.prekey_pub);
    init.signed_prekey_sig = bob.prekey_sig;

    let bob_session_key = respond(&bob.keychain, &bob.identity, &init).unwrap();
    assert_eq!(alice_session_key, bob_session_key);
}

#[test]
fn test_x3dh_tamper_detection() {
    let bob = setup_bob();
    let (alice_keychain, alice) = setup_alice();
    let (mut original_init, alice_session_key) =
        initiate(&alice_keychain, &alice, bob.identity_pub, bob.prekey_pub);
    original_init.signed_prekey_sig = bob.prekey_sig;

    let detected = |modified_init: &HandshakeInit| -> bool {
        match respond(&bob.keychain, &bob.identity, modified_init) {
            Ok(bob_session_key) => bob_session_key != alice_session_key,
            Err(_) => true,
        }
    };

    for i in 0..32 {
        let mut tampered = original_init.clone();
        tampered.identity_key[i] ^= 0xff;
        assert!(detected(&tampered), "Tampering identity_key at byte {} went undetected!", i);
    }
    for i in 0..32 {
        let mut tampered = original_init.clone();
        tampered.signed_prekey[i] ^= 0xff;
        assert!(detected(&tampered), "Tampering signed_prekey at byte {} went undetected!", i);
    }
    for i in 0..64 {
        let mut tampered = original_init.clone();
        tampered.signed_prekey_sig[i] ^= 0xff;
        assert!(detected(&tampered), "Tampering signed_prekey_sig at byte {} went undetected!", i);
    }
    for i in 0..32 {
        let mut tampered = original_init.clone();
        tampered.ephemeral_key[i] ^= 0xff;
        assert!(detected(&tampered), "Tampering ephemeral_key at byte {} went undetected!", i);
    }
    assert!(!detected(&original_init));
}

#[test]
fn test_x3dh_forged_signature_rejected() {
    let bob = setup_bob();
    let (alice_keychain, alice) = setup_alice();
    let (mut init, _alice_session_key) =
        initiate(&alice_keychain, &alice, bob.identity_pub, bob.prekey_pub);
    init.signed_prekey_sig = [0x55u8; 64];

    let result = respond(&bob.keychain, &bob.identity, &init);
    assert!(
        matches!(result, Err(HandshakeError::InvalidSignature)),
        "Forged signature did not fail with InvalidSignature! Got {:?}",
        result
    );
}

/// The protobuf message: four byte fields.
#[derive(Debug, Clone, PartialEq, Default)]
struct Wire {
    fields: [Vec<u8>; 4],
}

impl Message for Wire {
    fn encode_raw(&self, buf: &mut impl BufMut) {
        for (i, field) in self.fields.iter().enumerate() {
            if !field.is_empty() {
                encoding::bytes::encode(i as u32 + 1, field, buf);
            }
        }
    }

    fn merge_field(
        &mut self,
        tag: u32,
        wire_type: WireType,
        buf: &mut impl Buf,
        ctx: DecodeContext,
    ) -> Result<(), DecodeError> {
        match tag {
            1..=4 => encoding::bytes::merge(wire_type, &mut self.fields[tag as usize - 1], buf, ctx),
            _ => encoding::skip_field(wire_type, tag, buf, ctx),
        }
    }

    fn encoded_len(&self) -> usize {
        let mut len = 0;
        for (i, field) in self.fields.iter().enumerate() {
            if !field.is_empty() {
                len += encoding::bytes::encoded_len(i as u32 + 1, field);
            }
        }
        len
    }

    fn clear(&mut self) {
        *self = Wire::default();
    }
}

#[test]
fn test_protobuf_wire_format_roundtrip() {
    let original = HandshakeInit {
        identity_key: [0x11; 32],
        signed_prekey: [0x22; 32],
        signed_prekey_sig: [0x33; 64],
        ephemeral_key: [0x44; 32],
    };

    let message: HandshakeMessage = original.clone().into();
    let proto = Wire {
        fields: [
            message.identity_key,
            message.signed_prekey,
            message.signed_prekey_sig,
            message.ephemeral_key,
        ],
    };

    let mut buf = Vec::new();
    proto.encode(&mut buf).unwrap();
    assert_eq!(buf.len(), 3 * 34 + 66);

    let decoded_proto = Wire::decode(&buf[..]).unwrap();
    let [identity_key, signed_prekey, signed_prekey_sig, ephemeral_key] = decoded_proto.fields;
    let decoded: HandshakeInit = HandshakeMessage {
        identity_key,
        signed_prekey,
        signed_prekey_sig,
        ephemeral_key,
    }
    .try_into()
    .unwrap();

    assert_eq!(original, decoded);
}

#[test]
fn fields_of_a_wrong_length_are_told() {
    let good = HandshakeMessage::from(HandshakeInit {
        identity_key: [1; 32],
        signed_prekey: [2; 32],
        signed_prekey_sig: [3; 64],
        ephemeral_key: [4; 32],
    });
    assert!(HandshakeInit::try_from(good.clone()).is_ok());

    let told = |message: &HandshakeMessage| {
        HandshakeInit::try_from(message.clone()).unwrap_err().message()
    };
    let mut bad = good.clone();
    bad.identity_key.pop();
    assert_eq!(told(&bad), "Serialization error: Invalid identity_key length");
    let mut bad = good.clone();
    bad.signed_prekey.push(0);
    assert_eq!(told(&bad), "Serialization error: Invalid signed_prekey length");
    let mut bad = good.clone();
    bad.signed_prekey_sig.clear();
    assert_eq!(told(&bad), "Serialization error: Invalid signed_prekey_sig length");
    let mut bad = good.clone();
    bad.ephemeral_key.pop();
    assert_eq!(told(&bad), "Serialization error: Invalid ephemeral_key length");
}

#[test]
fn session_keys_match_a_known_value() {
    let bob_identity = [
        93, 254, 221, 59, 107, 212, 127, 111, 162, 142, 225, 93, 150, 157, 91, 176, 234, 83, 119,
        77, 72, 139, 218, 249, 223, 28, 110, 1, 36, 179, 239, 34,
    ];
    let bob_prekey = [
        172, 1, 178, 32, 158, 134, 53, 79, 184, 83, 35, 123, 93, 224, 244, 250, 177, 60, 127, 203,
        244, 51, 166, 28, 1, 147, 105, 97, 127, 236, 241, 11,
    ];
    let session_key = [
        249, 152, 244, 164, 147, 122, 95, 175, 131, 200, 211, 222, 245, 1, 151, 248, 3, 189, 137,
        141, 32, 35, 244, 154, 230, 9, 26, 59, 28, 194, 96, 210,
    ];
    let (init, key) = initiate_with(&[1u8; 32], &[2u8; 32], bob_identity, bob_prekey);
    assert_eq!(
        init.identity_key,
        [
            164, 224, 146, 146, 182, 81, 194, 120, 185, 119, 44, 86, 159, 95, 169, 187, 19, 217, 6,
            180, 106, 182, 140, 157, 249, 220, 43, 68, 9, 248, 162, 9
        ]
    );
    assert_eq!(
        init.ephemeral_key,
        [
            206, 141, 58, 209, 204, 182, 51, 236, 123, 112, 193, 120, 20, 165, 199, 110, 205, 2,
            150, 133, 5, 13, 52, 71, 69, 186, 5, 135, 14, 88, 125, 89
        ]
    );
    assert_eq!(init.signed_prekey, bob_prekey);
    assert_eq!(init.signed_prekey_sig, [0u8; 64]);
    assert_eq!(key, session_key);
    assert_eq!(respond_with(&[3u8; 32], &[4u8; 32], &init), session_key);
}

#[test]
fn two_handshakes_use_two_ephemeral_keys() {
    let bob = setup_bob();
    let (alice_keychain, alice) = setup_alice();
    let (first, first_key) = initiate(&alice_keychain, &alice, bob.identity_pub, bob.prekey_pub);
    let (second, second_key) = initiate(&alice_keychain, &alice, bob.identity_pub, bob.prekey_pub);
    assert_eq!(first.identity_key, second.identity_key);
    assert_ne!(first.ephemeral_key, second.ephemeral_key);
    assert_ne!(first_key, second_key);
}

#[test]
fn a_missing_key_is_told() {
    let bob = setup_bob();
    let (alice_keychain, alice) = setup_alice();
    let (mut init, _) = initiate(&alice_keychain, &alice, bob.identity_pub, bob.prekey_pub);
    init.signed_prekey_sig = bob.prekey_sig;

    let empty = MockKeychainBackend::new();
    assert!(matches!(
        try_initiate(&empty, &alice, bob.identity_pub, bob.prekey_pub),
        Err(IdentityError::NotBootstrapped)
    ));
    match respond(&empty, &bob.identity, &init) {
        Err(error) => assert_eq!(
            error.message(),
            "Identity error: Identity has not been bootstrapped yet"
        ),
        Ok(_) => panic!("no key to respond with"),
    }

    let mut keychain = bob.keychain;
    keychain.delete_password("chaperone-signed-prekey", "default").unwrap();
    assert!(matches!(
        respond(&keychain, &bob.identity, &init),
        Err(HandshakeError::IdentityError(IdentityError::NotBootstrapped))
    ));
    keychain.set_password("chaperone-agreement-key", "default", "2").unwrap();
    match respond(&keychain, &bob.identity, &init) {
        Err(error) => assert_eq!(
            error.message(),
            "Identity error: Corrupt existing identity: Invalid agreement key length"
        ),
        Ok(_) => panic!("no key to respond with"),
    }

    let mut nameless = bob.identity.clone();
    nameless.did_key = "did:key:z".to_string();
    assert!(matches!(
        respond(&keychain, &nameless, &init),
        Err(HandshakeError::IdentityError(IdentityError::CorruptExistingIdentity(_)))
    ));
    nameless.did_key = chaperone::did_key::bytes_to_did_key(&[2u8; 32]);
    match respond(&keychain, &nameless, &init) {
        Err(HandshakeError::Other(message)) => assert_eq!(
            HandshakeError::Other(message.clone()).message(),
            format!("Handshake error: {}", message)
        ),
        other => panic!("{:?}", other),
    }
    assert_eq!(HandshakeError::InvalidSignature.message(), "Invalid signed prekey signature");
}
