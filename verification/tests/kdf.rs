use usb_vault::crypto::kdf::{derive_key, hmac_sha256, pbkdf2_sha256};
use usb_vault::crypto::sha256::sha256_digest;

fn hex(s: &str) -> Vec<u8> {
    (0..s.len()).step_by(2).map(|i| u8::from_str_radix(&s[i..i + 2], 16).unwrap()).collect()
}

#[test]
fn test_hmac_deterministic() {
    let key = b"secret";
    let msg = b"hello world";
    let tag = hmac_sha256(key, msg);
    assert_ne!(tag, [0u8; 32]);
    let tag2 = hmac_sha256(key, msg);
    assert_eq!(tag, tag2);
}

#[test]
fn test_derive_key_deterministic() {
    let salt = [0xABu8; 16];
    let k1 = derive_key("correct horse battery staple", &salt);
    let k2 = derive_key("correct horse battery staple", &salt);
    assert_eq!(k1, k2);
}

#[test]
fn test_derive_key_differs_with_password() {
    let salt = [0x01u8; 16];
    let k1 = derive_key("password1", &salt);
    let k2 = derive_key("password2", &salt);
    assert_ne!(k1, k2);
}

#[test]
fn test_derive_key_differs_with_salt() {
    let salt1 = [0x01u8; 16];
    let salt2 = [0x02u8; 16];
    let k1 = derive_key("same password", &salt1);
    let k2 = derive_key("same password", &salt2);
    assert_ne!(k1, k2);
}

#[test]
fn sha256_known_digests() {
    let cases: [(usize, &str); 11] = [
        (0, "e3b0c44298fc1c149afbf4c8996fb92427ae41e4649b934ca495991b7852b855"),
        (3, "6ab0dba1f4f1dfbb37b4f9eeb092c09fca4900ad32bdcd147d8dde35d6c87c35"),
        (55, "e7313d333c272e639f790978283f9eb392e843d0f29b7016828bb1daa4aac70b"),
        (56, "4324d65f3c103567f5589c710bc08f8523f929a9272e3af36fc968e52abc6c27"),
        (63, "81c80242132f230c3bd41b3e63bbcff16107339549214a99614ff26664625055"),
        (64, "39e3d7b6b5d075d37d053ad89b24b41bef4f3c29760c84447cab3f3be1882241"),
        (65, "aacca6ff74fdbb296d165a45cecfa04e5127bc008770fbbdd48006f2d2fae95e"),
        (119, "9ce7368e4daf32341631b492e80359dc9f594b48453cd0dd5bf0b19279cc177e"),
        (120, "7836b787757e95e58b3ca5aec90b1b004e8deba1e50e9675af9cabf1a13a04b5"),
        (128, "d2742f1f4ac6bb7ca2b239ee18402ba8b3f9f8e652d2a72973c2b9ba11c08cf6"),
        (1000, "1e9bc38cbf860b9ec31918b065f9b52476c549a782e0e7990bed8ce3868d2371"),
    ];
    for (n, expected) in cases {
        let m: Vec<u8> = (0..n).map(|i| ((i * 7 + 3) % 256) as u8).collect();
        assert_eq!(sha256_digest(&m).to_vec(), hex(expected), "length {}", n);
    }
}

#[test]
fn sha256_abc() {
    assert_eq!(
        sha256_digest(b"abc").to_vec(),
        hex("ba7816bf8f01cfea414140de5dae2223b00361a396177a9cb410ff61f20015ad")
    );
}

#[test]
fn hmac_known_values() {
    assert_eq!(
        hmac_sha256(b"secret", b"hello world").to_vec(),
        hex("734cc62f32841568f45715aeb9f4d7891324e6d948e4c6c60c0621cdac48623a")
    );
    // a key longer than a block is hashed first
    assert_eq!(
        hmac_sha256(&[b'k'; 100], b"msg").to_vec(),
        hex("bd56a1782c2830e8abc6ed866a57a1230661e650b84c62f7ee3accc5fa5af491")
    );
}

#[test]
fn hmac_rfc4231_case_2() {
    assert_eq!(
        hmac_sha256(b"Jefe", b"what do ya want for nothing?").to_vec(),
        hex("5bdcc146bf60754e6a042426089575c75a003f089d2739839dec58b964ec3843")
    );
}

#[test]
fn derive_key_matches_reference_pbkdf2() {
    let key = derive_key("correct horse battery staple", &[0xABu8; 16]);
    assert_eq!(key.to_vec(), hex("5e498f4cdf72eeff58359c30da2ae17ee9949e7734e0bd399c11940c6ee1405c"));
}

#[test]
fn pbkdf2_two_blocks_truncated() {
    let dk = pbkdf2_sha256(b"password", b"salt", 40);
    assert_eq!(dk, hex("669cfe52482116fda1aa2cbe409b2f56c8e4563752b7a28f6eaab614ee005178e0547923c484decf"));
}

#[test]
fn pbkdf2_shorter_key_is_prefix() {
    let dk = pbkdf2_sha256(b"password", b"salt", 20);
    assert_eq!(dk, hex("669cfe52482116fda1aa2cbe409b2f56c8e45637"));
    assert!(pbkdf2_sha256(b"password", b"salt", 0).is_empty());
}
