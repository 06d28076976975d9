use backend::hasher::{generate_salt, generate_token, hash_password, verify_password};

fn is_lower_hex_64(s: &str) -> bool {
    s.len() == 64 && s.chars().all(|c| c.is_ascii_digit() || ('a'..='f').contains(&c))
}

#[test]
fn hash_password_is_sha256_of_password_then_salt() {
    assert_eq!(
        hash_password("secret1", "salt"),
        "97c09eb5c61a9fed6a9cda04cd3ba47e0e8f147fcf7423617824895a6cc79940"
    );
    assert_eq!(
        hash_password("password", "abc"),
        "6733b7ffeace4887c3b31258079c780d8db3018db9cbc05c500df3521f968df8"
    );
}

#[test]
fn hash_of_empty_inputs() {
    assert_eq!(
        hash_password("", ""),
        "e3b0c44298fc1c149afbf4c8996fb92427ae41e4649b934ca495991b7852b855"
    );
}

#[test]
fn hash_then_verify_accepts() {
    let salt = generate_salt();
    let h = hash_password("secret1", &salt);
    assert!(verify_password("secret1", &salt, &h));
}

#[test]
fn single_bit_change_rejects() {
    let h = hash_password("secret1", "salt");
    // 's' (0x73) with its lowest bit flipped is 'r'; 'q' is 0x71.
    assert!(!verify_password("qecret1", "salt", &h));
    assert!(!verify_password("secret1", "salu", &h));
    assert!(!verify_password("secret0", "salt", &h));
    assert!(!verify_password("secret1", "salt", "not-a-digest"));
}

#[test]
fn salts_and_tokens_are_64_hex_digits() {
    let s = generate_salt();
    let t = generate_token();
    assert!(is_lower_hex_64(&s));
    assert!(is_lower_hex_64(&t));
    assert_ne!(s, t);
    assert_ne!(generate_token(), generate_token());
}
