use chat_core::token::{create_uuid, verify_uuid, SessionToken};

#[test]
fn mainssss() {
    let key = String::from("secret-key");
    let data = String::from("important_payload_data");

    let uuid = create_uuid(&data, &key);
    println!("Generated UUID: {}", uuid);

    let is_valid = verify_uuid(&data, &uuid, &key);
    println!("Is valid: {}", is_valid);
}

#[test]
fn sign_verify_round_trip() {
    let key = String::from("server-secret");
    let payload = String::from("alice@example.com");
    let sig = create_uuid(&payload, &key);
    assert!(verify_uuid(&payload, &sig, &key));
}

#[test]
fn session_token_round_trip() {
    let key = String::from("server-secret");
    let payload = String::from("alice@example.com");
    let token = SessionToken::sign(&payload, &key);
    assert_eq!(token.payload, payload);
    assert!(token.verify(&payload, &key));
}

#[test]
fn cross_payload_rejected() {
    let key = String::from("server-secret");
    let p1 = String::from("alice@example.com");
    let p2 = String::from("mallory@example.com");
    let sig_of_p2 = create_uuid(&p2, &key);
    assert!(!verify_uuid(&p1, &sig_of_p2, &key));
}

#[test]
fn wrong_key_rejected() {
    let payload = String::from("alice@example.com");
    let sig = create_uuid(&payload, &String::from("key-one"));
    assert!(!verify_uuid(&payload, &sig, &String::from("key-two")));
}

#[test]
fn flipped_hex_char_rejected() {
    let key = String::from("server-secret");
    let payload = String::from("alice@example.com");
    let sig = create_uuid(&payload, &key);
    let mut chars: Vec<char> = sig.chars().collect();
    let first = chars[0];
    chars[0] = if first == '0' { '1' } else { '0' };
    let tampered: String = chars.into_iter().collect();
    assert_ne!(tampered, sig);
    assert!(!verify_uuid(&payload, &tampered, &key));
}

#[test]
fn malformed_hex_rejected() {
    let key = String::from("server-secret");
    let payload = String::from("alice@example.com");
    // Odd length.
    assert!(!verify_uuid(&payload, &String::from("abc"), &key));
    // Not hex digits at all.
    assert!(!verify_uuid(&payload, &String::from("zz!-"), &key));
    // Empty: well-formed hex, but 0 bytes can never equal a 32-byte tag.
    assert!(!verify_uuid(&payload, &String::new(), &key));
}

#[test]
fn uppercase_signature_still_accepted() {
    // The decoder accepts either case, so the uppercased signature denotes
    // the same tag and still verifies.
    let key = String::from("server-secret");
    let payload = String::from("alice@example.com");
    let sig = create_uuid(&payload, &key);
    let upper = sig.to_uppercase();
    assert!(verify_uuid(&payload, &upper, &key));
}

#[test]
fn signature_is_64_lowercase_hex_chars() {
    let key = String::from("k");
    let payload = String::from("p");
    let sig = create_uuid(&payload, &key);
    assert_eq!(sig.chars().count(), 64);
    assert!(sig.chars().all(|c| c.is_ascii_hexdigit() && !c.is_ascii_uppercase()));
    // Different payloads give different signatures.
    let other = create_uuid(&String::from("q"), &key);
    assert_ne!(sig, other);
}
