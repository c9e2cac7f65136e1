use chaperone::secret_key::{SecretKey, SecretKeyError};
use rand::{RngCore, SeedableRng};
use std::marker::PhantomData;

fn generate_with(rng: &mut rand::rngs::StdRng) -> SecretKey {
    let mut entropy = [0u8; 16];
    rng.fill_bytes(&mut entropy);
    SecretKey::generate_with_rng(entropy)
}

#[test]
fn keys_are_written_in_groups_of_four() {
    let first = [130, 241, 102, 235, 114, 219, 137, 247, 7, 222, 106, 172, 169, 12, 109, 116];
    let second = [163, 16, 73, 219, 170, 71, 91, 108, 14, 187, 85, 235, 176, 2, 45, 13];
    let sk1 = SecretKey::generate_with_rng(first);
    let sk2 = SecretKey::generate_with_rng(second);

    assert_eq!(sk1.to_bytes(), first);
    assert_eq!(sk2.to_bytes(), second);
    assert_eq!(sk1.to_base32(), "QLYW-N23S-3OE7-OB66-NKWK-SDDN-OQ");
    assert_eq!(sk2.to_base32(), "UMIE-TW5K-I5NW-YDV3-KXV3-AARN-BU");
}

#[test]
fn test_random_generations_differ() {
    let sk1 = SecretKey::generate();
    let sk2 = SecretKey::generate();
    assert_ne!(sk1.to_bytes(), sk2.to_bytes());
}

#[test]
fn test_parse_various_base32_input_formats() {
    let sk = SecretKey::generate();
    let formatted = sk.to_base32();

    let parsed1 = SecretKey::from_base32(&formatted).ok().unwrap();
    assert_eq!(parsed1.to_bytes(), sk.to_bytes());

    let parsed2 = SecretKey::from_base32(&formatted.to_lowercase()).ok().unwrap();
    let parsed3 = SecretKey::from_base32(&formatted.replace('-', " ")).ok().unwrap();
    let parsed4 = SecretKey::from_base32(&formatted.replace('-', "")).ok().unwrap();

    assert_eq!(parsed2.to_bytes(), sk.to_bytes());
    assert_eq!(parsed3.to_bytes(), sk.to_bytes());
    assert_eq!(parsed4.to_bytes(), sk.to_bytes());

    assert!(SecretKey::from_base32("too-short").is_err());
    let with_q = "Q".to_string() + &formatted[1..];
    assert!(SecretKey::from_base32(&with_q).is_ok());
    assert!(SecretKey::from_base32(&with_q.replace('Q', "8")).is_err());
}

#[test]
fn test_verification_hash_matching() {
    let sk = SecretKey::generate();
    let hash = sk.verifier_hash();
    assert!(sk.verify(&hash));

    let other = SecretKey::generate();
    assert!(!other.verify(&hash));
}

#[test]
fn test_raw_bytes_not_in_debug_or_display() {
    let mut rng = rand::rngs::StdRng::seed_from_u64(42);
    let sk = generate_with(&mut rng);
    let debug_str = sk.debug_text();
    let display_str = sk.display_text();

    assert!(!debug_str.contains("QDYG"));
    assert!(!display_str.contains("QDYG"));
    assert!(debug_str.contains("<redacted>"));
    assert!(display_str.contains("<redacted>"));
    assert_eq!(debug_str, "SecretKey { bytes: \"<redacted> [SCRUBBED]\" }");
}

#[test]
fn a_logged_secret_key_is_scrubbed() {
    let secret_key = SecretKey::generate();
    let content = format!("Testing secret key logging key={}", secret_key.debug_text());
    assert!(content.contains("[SCRUBBED]"), "Log content: {}", content);
    assert!(!content.contains(&secret_key.to_base32()), "Base32 key leaked in logs!");
    let bytes_string = format!("{:?}", secret_key.to_bytes());
    assert!(!content.contains(&bytes_string), "Raw key bytes leaked in logs!");
}

#[test]
fn test_entropy_statistical_distribution() {
    let num_keys = 1000;
    let mut counts = [0usize; 256];
    for _ in 0..num_keys {
        let sk = SecretKey::generate();
        for &b in &sk.to_bytes() {
            counts[b as usize] += 1;
        }
    }

    let total_bytes = (num_keys * 16) as f64;
    let expected = total_bytes / 256.0;

    let mut chi_squared = 0.0;
    for &count in &counts {
        let diff = count as f64 - expected;
        chi_squared += (diff * diff) / expected;
    }

    assert!(
        chi_squared < 310.457,
        "Chi-squared statistic ({}) exceeded critical value for uniformity threshold!",
        chi_squared
    );
}

struct Probe<T>(PhantomData<T>);

trait Silent {
    fn has_debug(&self) -> bool {
        false
    }

    fn has_display(&self) -> bool {
        false
    }
}

impl<T> Silent for Probe<T> {}

impl<T: std::fmt::Debug> Probe<T> {
    fn has_debug(&self) -> bool {
        true
    }
}

impl<T: std::fmt::Display> Probe<T> {
    fn has_display(&self) -> bool {
        true
    }
}

#[test]
fn test_static_code_analysis_secretkey_does_not_derive_debug_or_display() {
    let struct_found = std::mem::size_of::<SecretKey>() == 16;
    let probe: Probe<SecretKey> = Probe(PhantomData);
    let derive_before_struct = probe.has_debug() || probe.has_display();

    let shown: Probe<String> = Probe(PhantomData);
    assert!(shown.has_debug() && shown.has_display());

    assert!(struct_found, "Could not locate SecretKey struct in source file");
    assert!(
        !derive_before_struct,
        "SecretKey struct should NOT derive Debug or Display automatically!"
    );
}

#[test]
fn a_key_is_written_in_groups_and_hashed() {
    let sk = SecretKey::generate_with_rng([0, 1, 2, 3, 4, 5, 6, 7, 8, 9, 10, 11, 12, 13, 14, 15]);
    assert_eq!(sk.to_base32(), "AAAQ-EAYE-AUDA-OCAJ-BIFQ-YDIO-B4");
    assert_eq!(
        sk.verifier_hash(),
        [
            190, 69, 203, 38, 5, 191, 54, 190, 189, 230, 132, 132, 26, 40, 240, 253, 67, 198, 152,
            80, 163, 220, 229, 254, 219, 166, 153, 40, 238, 58, 137, 145
        ]
    );
    let mut hash = sk.verifier_hash();
    hash[31] ^= 0x80;
    assert!(!sk.verify(&hash));
    let copy = sk;
    assert!(copy.verify(&sk.verifier_hash()));
}

fn refusal(typed: &str) -> SecretKeyError {
    match SecretKey::from_base32(typed) {
        Ok(key) => panic!("{:?}", key.to_bytes()),
        Err(error) => error,
    }
}

#[test]
fn typed_texts_that_are_no_key() {
    assert_eq!(refusal(""), SecretKeyError::InvalidLength);
    assert_eq!(refusal("AAAQ-EAYE-AUDA-OCAJ-BIFQ-YDIO-B"), SecretKeyError::InvalidLength);
    assert_eq!(refusal("AAAQ-EAYE-AUDA-OCAJ-BIFQ-YDIO-B4A"), SecretKeyError::InvalidLength);
    assert_eq!(refusal("AAAQ-EAYE-AUDA-OCAJ-BIFQ-YDIO-B1"), SecretKeyError::InvalidCharacter);
    assert_eq!(refusal("AAAQ-EAYE-AUDA-OCAJ-BIFQ-YDIO-B5"), SecretKeyError::InvalidCharacter);
    assert_eq!(refusal("AAAQ-EAYE-AUDA-OCAJ-BIFQ-YDIO-\u{e9}"), SecretKeyError::InvalidCharacter);
    assert_eq!(SecretKeyError::InvalidLength.message(), "Invalid secret key length");
    assert_eq!(
        SecretKeyError::InvalidCharacter.message(),
        "Invalid base32 character in secret key"
    );
    let spaced = " aaaq\teaye\nAUDA\u{a0}ocaj\u{2003}b-i-f-q ydio b4\r\n";
    assert_eq!(
        SecretKey::from_base32(spaced).ok().unwrap().to_bytes(),
        [0, 1, 2, 3, 4, 5, 6, 7, 8, 9, 10, 11, 12, 13, 14, 15]
    );
}
