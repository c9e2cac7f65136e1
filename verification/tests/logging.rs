use chaperone::logging::{Scrubbed, Sensitive};

fn is_sensitive<T: Sensitive>(_value: &T) -> bool {
    true
}

#[test]
fn test_scrubbed_debug_output() {
    let val: [u8; 32] = [42; 32];
    let scrubbed = Scrubbed(val);
    let debug_str = scrubbed.debug_text();
    assert_eq!(debug_str, "[SCRUBBED]");
    assert!(!debug_str.contains("42"));
}

#[test]
fn test_scrubbed_known_value_debug_formatting() {
    let raw_bytes: [u8; 32] = [0xa5; 32];
    let scrubbed = Scrubbed(raw_bytes);
    let debug_output = scrubbed.debug_text();

    assert_eq!(debug_output, "[SCRUBBED]");

    let hex_representation = data_encoding::HEXLOWER.encode(&raw_bytes);
    assert!(!debug_output.contains(&hex_representation));
    assert!(!debug_output.contains("165"));
}

#[test]
fn scrubbed_values_behave_like_what_they_hold() {
    let one = Scrubbed::new(1u32);
    let two = Scrubbed::new(2u32);
    assert!(is_sensitive(&one));
    assert!(one < two);
    assert!(one == one.clone());
    assert!(one != two);
    assert_eq!(two.into_inner(), 2);
    let text = Scrubbed::new("pin".to_string());
    assert_eq!(text.clone().into_inner(), "pin");
}
