use usb_vault::crypto::aes::{
    aes256_ctr_decrypt, aes256_ctr_encrypt, aes256_ctr_process, aes256_ctr_process_from, aes_encrypt_block,
    compute_verification_tag, key_expansion, mix_columns, shift_rows, RCON, SBOX,
};
use usb_vault::crypto::gf256::{gf256_inv, gf256_mul};

fn hex(s: &str) -> Vec<u8> {
    (0..s.len()).step_by(2).map(|i| u8::from_str_radix(&s[i..i + 2], 16).unwrap()).collect()
}

#[test]
fn test_sbox_known_values() {
    assert_eq!(SBOX[0x00], 0x63);
    assert_eq!(SBOX[0x53], 0xed);
    assert_eq!(SBOX[0xa1], 0x32);
}

#[test]
fn test_ctr_roundtrip() {
    let key = [0x42u8; 32];
    let nonce = [0x01u8; 12];
    let plaintext = b"Hello, USB Vault! This is a test message for AES-256-CTR encryption.";
    let ciphertext = aes256_ctr_encrypt(&key, &nonce, plaintext);
    let decrypted = aes256_ctr_decrypt(&key, &nonce, &ciphertext);
    assert_eq!(plaintext.as_slice(), decrypted.as_slice());
}

#[test]
fn test_ctr_empty() {
    let key = [0xABu8; 32];
    let nonce = [0xCDu8; 12];
    let plaintext: &[u8] = b"";
    let ciphertext = aes256_ctr_encrypt(&key, &nonce, plaintext);
    assert!(ciphertext.is_empty());
}

#[test]
fn test_ctr_non_block_aligned() {
    let key = [0x11u8; 32];
    let nonce = [0x22u8; 12];
    let plaintext = vec![0xDE, 0xAD, 0xBE, 0xEF, 0xCA, 0xFE, 0xBA, 0xBE, 0x00, 0x01, 0x02];
    let ciphertext = aes256_ctr_encrypt(&key, &nonce, &plaintext);
    let decrypted = aes256_ctr_decrypt(&key, &nonce, &ciphertext);
    assert_eq!(plaintext, decrypted);
}

#[test]
fn aes256_fips197_known_answer() {
    let mut key = [0u8; 32];
    for i in 0..32 {
        key[i] = i as u8;
    }
    let rk = key_expansion(&key);
    let mut block = [0u8; 16];
    block.copy_from_slice(&hex("00112233445566778899aabbccddeeff"));
    let out = aes_encrypt_block(&block, &rk);
    assert_eq!(out.to_vec(), hex("8ea2b7ca516745bfeafc49904b496089"));
}

#[test]
fn key_expansion_first_and_last_round_keys() {
    let mut key = [0u8; 32];
    for i in 0..32 {
        key[i] = i as u8;
    }
    let rk = key_expansion(&key);
    assert_eq!(rk[0].to_vec(), hex("000102030405060708090a0b0c0d0e0f"));
    assert_eq!(rk[1].to_vec(), hex("101112131415161718191a1b1c1d1e1f"));
    // FIPS-197 C.3: round key of the last round
    assert_eq!(rk[14].to_vec(), hex("24fc79ccbf0979e9371ac23c6d68de36"));
}

#[test]
fn ctr_matches_reference_ciphertext() {
    let key = [0x42u8; 32];
    let nonce = [0x01u8; 12];
    let plaintext = b"Hello, USB Vault! This is a test message for AES-256-CTR encryption.";
    let ciphertext = aes256_ctr_process(&key, &nonce, plaintext);
    assert_eq!(
        ciphertext,
        hex("e00ea072ef16d65ae17eb0dc29586493a0994075aee852ec54b17ec7b08d211a0dc4d374e735e6a8ff3086bec756fe9887b1c9f5a0ef835168395e6b603f85a106b11b1d")
    );
    let short = aes256_ctr_process(&[0x11u8; 32], &[0x22u8; 12], &[0xDE, 0xAD, 0xBE, 0xEF, 0xCA, 0xFE, 0xBA, 0xBE, 0x00, 0x01, 0x02]);
    assert_eq!(short, hex("29f8d6e82e21433c4681f4"));
}

#[test]
fn ctr_first_block_is_encrypted_counter_zero() {
    let key = [7u8; 32];
    let nonce = [9u8; 12];
    let zeros = [0u8; 20];
    let ks = aes256_ctr_process(&key, &nonce, &zeros);
    let mut counter = [0u8; 16];
    counter[..12].copy_from_slice(&nonce);
    let block0 = aes_encrypt_block(&counter, &key_expansion(&key));
    assert_eq!(&ks[..16], &block0[..]);
    counter[15] = 1;
    let block1 = aes_encrypt_block(&counter, &key_expansion(&key));
    assert_eq!(&ks[16..20], &block1[..4]);
}

#[test]
fn ctr_keeps_length() {
    for n in [0usize, 1, 15, 16, 17, 31, 32, 33, 100] {
        let data = vec![0x5au8; n];
        assert_eq!(aes256_ctr_process(&[1u8; 32], &[2u8; 12], &data).len(), n);
    }
}

#[test]
fn shift_rows_moves_rows() {
    let mut s = [0u8; 16];
    for i in 0..16 {
        s[i] = i as u8;
    }
    shift_rows(&mut s);
    assert_eq!(s, [0, 5, 10, 15, 4, 9, 14, 3, 8, 13, 2, 7, 12, 1, 6, 11]);
}

#[test]
fn mix_columns_fips_example() {
    // FIPS-197 C.1 round 1: after ShiftRows and after MixColumns (first column)
    let mut s = [0u8; 16];
    s.copy_from_slice(&hex("6353e08c0960e104cd70b751bacad0e7"));
    mix_columns(&mut s);
    assert_eq!(s.to_vec(), hex("5f72641557f5bc92f7be3b291db9f91a"));
}

#[test]
fn gf256_products_and_inverses() {
    assert_eq!(gf256_mul(0x57, 0x83), 0xc1);
    assert_eq!(gf256_mul(0x57, 0x13), 0xfe);
    assert_eq!(gf256_inv(0), 0);
    assert_eq!(gf256_inv(1), 1);
    assert_eq!(gf256_inv(0x53), 0xca);
    for a in 1..=255u8 {
        assert_eq!(gf256_mul(a, gf256_inv(a)), 1);
    }
}

#[test]
fn rcon_are_powers_of_x() {
    assert_eq!(RCON[0], 1);
    for i in 0..13 {
        assert_eq!(RCON[i + 1], gf256_mul(RCON[i], 2));
    }
}

#[test]
fn verification_tag_is_digest_of_key_and_nonce() {
    let tag = compute_verification_tag(&[0x42u8; 32], &[0x01u8; 12]);
    assert_eq!(tag.to_vec(), hex("69f3aa025985334f673a19d408bcaee3e7720dc66fe51a337c7bcb03c30a638d"));
}

#[test]
fn sbox_is_affine_map_of_inverse() {
    for x in 0..=255u8 {
        let b = gf256_inv(x);
        let affine = b ^ b.rotate_left(1) ^ b.rotate_left(2) ^ b.rotate_left(3) ^ b.rotate_left(4) ^ 0x63;
        assert_eq!(SBOX[x as usize], affine, "x = {:#04x}", x);
    }
}

#[test]
fn ctr_from_offsets_continue_the_stream() {
    let key = [3u8; 32];
    let nonce = [4u8; 12];
    let data: Vec<u8> = (0..100u32).map(|i| (i * 13) as u8).collect();
    let whole = aes256_ctr_process(&key, &nonce, &data);
    for cut in [0usize, 1, 15, 16, 17, 40, 99, 100] {
        let mut pieces = aes256_ctr_process_from(&key, &nonce, 0, &data[..cut]);
        pieces.extend_from_slice(&aes256_ctr_process_from(&key, &nonce, cut as u64, &data[cut..]));
        assert_eq!(pieces, whole, "cut at {}", cut);
    }
}

#[test]
fn gf256_field_laws() {
    for a in 0..=255u8 {
        assert_eq!(gf256_mul(a, 1), a);
        assert_eq!(gf256_mul(a, 0), 0);
        for b in 0..=255u8 {
            assert_eq!(gf256_mul(a, b), gf256_mul(b, a));
        }
    }
    for a in (0..=255u8).step_by(7) {
        for b in (0..=255u8).step_by(11) {
            for c in (0..=255u8).step_by(13) {
                assert_eq!(gf256_mul(gf256_mul(a, b), c), gf256_mul(a, gf256_mul(b, c)));
                assert_eq!(gf256_mul(a, b ^ c), gf256_mul(a, b) ^ gf256_mul(a, c));
            }
        }
    }
}
