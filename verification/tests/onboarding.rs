use chaperone::identity::{IdentityError, KeychainBackend, LocalIdentity, MockKeychainBackend};
use chaperone::onboarding::{
    already_onboarded, answer_matches, bootstrap_command, bootstrap_report, choose_groups,
    first_groups, identity_or_message, obtain_identity, prepare_vault, read_pin, BackupCheck, Progress,
};
use chaperone::rotation::RotationChain;
use chaperone::secret_key::SecretKey;
use chaperone::vault::VaultStore;

#[test]
fn a_whole_onboarding_protects_the_vault() {
    let mut keychain = MockKeychainBackend::new();
    let mut store = VaultStore::new();
    assert!(!already_onboarded(true, Some(store.is_initialized()), Some(store.is_protected())));

    let identity = obtain_identity(&mut keychain).unwrap();
    let pin = read_pin("correctPIN123\n").unwrap();
    assert_eq!(pin, "correctPIN123");
    let vault_key = prepare_vault(&mut store, pin.as_bytes()).unwrap();

    let secret_key = SecretKey::generate();
    let formatted = secret_key.to_base32();
    assert_eq!(formatted.len(), 32);
    let groups: Vec<&str> = formatted.split('-').collect();
    assert_eq!(groups.len(), 7);
    store.set_secret_key_verifier(&secret_key.verifier_hash());
    assert_eq!(RotationChain::genesis(&identity).records().len(), 1);

    let mut check = BackupCheck::new(&secret_key, choose_groups());
    for _ in 0..3 {
        let number = check.question().unwrap();
        assert!(!check.protect(&mut store));
        assert!(!store.is_protected());
        check.answer(&format!("{}\n", groups[number - 1].to_lowercase()));
    }
    assert_eq!(check.status(), Progress::Passed);
    assert!(check.question().is_none());
    assert!(check.protect(&mut store));

    assert!(store.is_protected());
    assert!(already_onboarded(true, Some(store.is_initialized()), Some(store.is_protected())));
    let verifier = store.get_secret_key_verifier().unwrap();
    assert!(SecretKey::from_base32(&formatted).ok().unwrap().verify(&verifier));
    assert_eq!(store.unlock_key(pin.as_bytes()).unwrap(), vault_key);
}

#[test]
fn a_wrong_group_does_not_protect_the_vault() {
    let mut store = VaultStore::new();
    let secret_key = SecretKey::generate_with_rng([9u8; 16]);
    let mut check = BackupCheck::new(&secret_key, [0, 3, 6]);
    assert_eq!(check.question(), Some(1));
    check.answer("WRONG\n");
    assert_eq!(check.status(), Progress::Failed);
    let formatted = secret_key.to_base32();
    for group in formatted.split('-') {
        check.answer(group);
    }
    assert_eq!(check.status(), Progress::Failed);
    assert!(!check.protect(&mut store));
    assert!(!store.is_protected());
}

#[test]
fn answers_come_group_by_group() {
    let secret_key =
        SecretKey::generate_with_rng([0, 1, 2, 3, 4, 5, 6, 7, 8, 9, 10, 11, 12, 13, 14, 15]);
    let mut check = BackupCheck::new(&secret_key, [1, 2, 6]);
    assert_eq!(check.question(), Some(2));
    check.answer("  eaye ");
    assert_eq!(check.status(), Progress::Asking(1));
    assert_eq!(check.question(), Some(3));
    check.answer("AUDA");
    assert_eq!(check.question(), Some(7));
    check.answer("b4\r\n");
    assert_eq!(check.status(), Progress::Passed);
}

#[test]
fn an_answer_is_compared_without_case() {
    assert!(answer_matches("qlyw\n", "QLYW"));
    assert!(answer_matches("\u{e9}", "\u{c9}"));
    assert!(!answer_matches("", ""));
    assert!(!answer_matches(" \t", ""));
    assert!(!answer_matches("qly", "QLYW"));
}

#[test]
fn chosen_groups_are_three_in_order() {
    let mut seen = [false; 7];
    for _ in 0..300 {
        let chosen = choose_groups();
        assert!(chosen[0] < chosen[1] && chosen[1] < chosen[2] && chosen[2] < 7);
        for &group in &chosen {
            seen[group] = true;
        }
    }
    assert_eq!(seen, [true; 7]);
    assert_eq!(first_groups(&vec![6, 0, 3, 1, 2, 4, 5]), [0, 3, 6]);
    assert_eq!(first_groups(&vec![1, 2, 3]), [1, 2, 3]);
    assert_eq!(first_groups(&vec![3, 2, 1]), [1, 2, 3]);
    assert_eq!(first_groups(&vec![3, 1, 2]), [1, 2, 3]);
}

#[test]
fn pins_are_trimmed_and_not_empty() {
    assert_eq!(read_pin("\u{3000} 12 34 \r\n").unwrap(), "12 34");
    assert_eq!(read_pin(" \n").unwrap_err(), "Error: PIN cannot be empty.");
    assert_eq!(read_pin("").unwrap_err(), "Error: PIN cannot be empty.");
}

#[test]
fn an_existing_vault_is_unlocked() {
    let mut store = VaultStore::new();
    let key = prepare_vault(&mut store, b"1234").unwrap();
    assert_eq!(prepare_vault(&mut store, b"1234").unwrap(), key);
    assert_eq!(
        prepare_vault(&mut store, b"4321").unwrap_err(),
        "Error unlocking existing vault: Cryptographic error: Cryptographic error: Incorrect PIN"
    );
    assert_eq!(store.headers.len(), 1);
}

#[test]
fn a_vault_counts_as_onboarded_only_if_all_is_known() {
    assert!(already_onboarded(true, Some(true), Some(true)));
    assert!(!already_onboarded(false, Some(true), Some(true)));
    assert!(!already_onboarded(true, None, Some(true)));
    assert!(!already_onboarded(true, Some(true), None));
    assert!(!already_onboarded(true, Some(true), Some(false)));
}

#[test]
fn an_identity_is_made_once() {
    let mut keychain = MockKeychainBackend::new();
    let made = obtain_identity(&mut keychain).unwrap();
    let again = obtain_identity(&mut keychain).unwrap();
    assert_eq!(made.did_key, again.did_key);
    keychain.set_password("chaperone-identity-metadata", "default", "?").unwrap();
    assert_eq!(
        obtain_identity(&mut keychain).unwrap_err(),
        "Error: Identity already exists, but failed to load it: Corrupt existing identity: Invalid metadata format"
    );
}

#[test]
fn a_failed_attempt_at_an_identity_is_told() {
    let locked = || Err(IdentityError::KeychainUnavailable("locked".to_string()));
    assert_eq!(
        identity_or_message(locked(), Err(IdentityError::NotBootstrapped)).unwrap_err(),
        "Error bootstrapping identity: Keychain unavailable: locked"
    );
    assert_eq!(
        identity_or_message(Err(IdentityError::AlreadyBootstrapped), locked()).unwrap_err(),
        "Error: Identity already exists, but failed to load it: Keychain unavailable: locked"
    );
    let identity = LocalIdentity { did_key: "x".to_string(), created_at: 1, rotation_epoch: 2 };
    let loaded = identity_or_message(Err(IdentityError::AlreadyBootstrapped), Ok(identity));
    assert_eq!(loaded.unwrap().created_at, 1);
}

#[test]
fn the_bootstrap_command_says_the_name() {
    let mut keychain = MockKeychainBackend::new();
    let first = bootstrap_command(&mut keychain);
    assert!(first.success && first.err.is_none());
    let second = bootstrap_command(&mut keychain);
    assert!(second.success);
    assert_eq!(first.out, second.out);
    assert_eq!(second.err.unwrap(), "Identity already bootstrapped.");

    keychain.delete_password("chaperone-identity-metadata", "default").unwrap();
    let third = bootstrap_command(&mut keychain);
    assert!(!third.success && third.out.is_none());
    assert_eq!(
        third.err.unwrap(),
        "Error: Identity is already bootstrapped, but failed to load it: Identity has not been bootstrapped yet"
    );
    let failed: Result<LocalIdentity, IdentityError> =
        Err(IdentityError::KeychainUnavailable("locked".to_string()));
    let report = bootstrap_report(failed, Err(IdentityError::NotBootstrapped));
    assert_eq!(
        report.err.unwrap(),
        "Error bootstrapping identity: Keychain unavailable: locked"
    );
}
