use usb_vault::crypto::aes::{aes256_ctr_process, aes256_ctr_process_from, compute_verification_tag};
use usb_vault::crypto::kdf::derive_key;
use usb_vault::usb::{
    after_read, data_size, is_encrypted, new_vault, next_chunk, parse_header, seal_header, unlock, VaultError,
    VaultHeader, CHUNK_SIZE, HEADER_SIZE, VAULT_MAGIC, VAULT_VERSION,
};

fn sample_header() -> VaultHeader {
    let mut salt = [0u8; 16];
    let mut nonce = [0u8; 12];
    let mut tag = [0u8; 32];
    for i in 0..16 {
        salt[i] = 0x10 + i as u8;
    }
    for i in 0..12 {
        nonce[i] = 0x40 + i as u8;
    }
    for i in 0..32 {
        tag[i] = 0x80 + i as u8;
    }
    VaultHeader::new(salt, nonce, tag)
}

#[test]
fn header_new_sets_magic_and_version() {
    let h = sample_header();
    assert_eq!(&h.magic, b"USBVAULT");
    assert_eq!(h.magic, VAULT_MAGIC);
    assert_eq!(h.version, VAULT_VERSION);
    assert_eq!(h.version, 1);
    assert!(h.is_valid());
    assert_eq!(HEADER_SIZE, 69);
}

#[test]
fn header_bytes_layout() {
    let h = sample_header();
    let b = h.to_bytes();
    assert_eq!(&b[0..8], b"USBVAULT");
    assert_eq!(b[8], 1);
    assert_eq!(&b[9..25], &h.salt[..]);
    assert_eq!(&b[25..37], &h.nonce[..]);
    assert_eq!(&b[37..69], &h.tag[..]);
}

#[test]
fn header_roundtrip() {
    let h = sample_header();
    let g = VaultHeader::from_bytes(&h.to_bytes());
    assert_eq!(g.magic, h.magic);
    assert_eq!(g.version, h.version);
    assert_eq!(g.salt, h.salt);
    assert_eq!(g.nonce, h.nonce);
    assert_eq!(g.tag, h.tag);
    let mut raw = [0u8; 69];
    for i in 0..69 {
        raw[i] = (i * 3) as u8;
    }
    assert_eq!(VaultHeader::from_bytes(&raw).to_bytes(), raw);
}

#[test]
fn header_validity() {
    let mut h = sample_header();
    assert!(h.is_valid());
    h.version = 2;
    assert!(!h.is_valid());
    let mut h = sample_header();
    h.magic[7] = b'X';
    assert!(!h.is_valid());
}

#[test]
fn parse_header_cases() {
    let bytes = sample_header().to_bytes();
    let mut device = bytes.to_vec();
    device.extend_from_slice(&[0xaa; 100]);
    let h = parse_header(&device).unwrap();
    assert_eq!(h.salt, sample_header().salt);
    assert!(is_encrypted(&device));
    assert_eq!(parse_header(&device[..68]).unwrap_err(), VaultError::HeaderTooShort);
    assert!(!is_encrypted(&device[..68]));
    assert!(!is_encrypted(&[]));
    let mut bad = device.clone();
    bad[0] = b'u';
    assert_eq!(parse_header(&bad).unwrap_err(), VaultError::NotAVault);
    assert!(!is_encrypted(&bad));
    let mut old = device.clone();
    old[8] = 0;
    assert_eq!(parse_header(&old).unwrap_err(), VaultError::NotAVault);
    assert!(!is_encrypted(&[0u8; 69]));
}

#[test]
fn seal_then_unlock_with_right_password() {
    let salt = [0x21u8; 16];
    let nonce = [0x37u8; 12];
    let (header, key) = seal_header("hunter2", salt, nonce);
    assert!(header.is_valid());
    assert_eq!(header.salt, salt);
    assert_eq!(header.nonce, nonce);
    assert_eq!(header.tag, compute_verification_tag(&key, &nonce));
    assert_eq!(unlock(&header, "hunter2"), Ok(key));
}

#[test]
fn unlock_with_wrong_password_is_refused() {
    let salt = [0x21u8; 16];
    let nonce = [0x37u8; 12];
    let key = derive_key("hunter2", &salt);
    let header = VaultHeader::new(salt, nonce, compute_verification_tag(&key, &nonce));
    assert_eq!(unlock(&header, "hunter3"), Err(VaultError::WrongPassword));
}

#[test]
fn new_vault_is_valid_and_random() {
    let (h1, k1) = new_vault("pw").unwrap();
    assert!(h1.is_valid());
    assert_eq!(h1.tag, compute_verification_tag(&k1, &h1.nonce));
    assert_eq!(k1, derive_key("pw", &h1.salt));
    let (h2, _) = new_vault("pw").unwrap();
    assert!(h1.salt != h2.salt || h1.nonce != h2.nonce);
}

#[test]
fn data_size_and_chunks() {
    assert_eq!(data_size(10), Err(VaultError::DeviceTooSmall));
    assert_eq!(data_size(68), Err(VaultError::DeviceTooSmall));
    assert_eq!(data_size(69), Ok(0));
    assert_eq!(data_size(1000), Ok(931));
    assert_eq!(next_chunk(0, 0), None);
    assert_eq!(next_chunk(100, 0), Some(100));
    assert_eq!(next_chunk(100, 100), None);
    assert_eq!(next_chunk(3 * 1024 * 1024, 0), Some(CHUNK_SIZE));
    assert_eq!(next_chunk(3 * 1024 * 1024 + 5, 3 * 1024 * 1024), Some(5));
}

#[test]
fn error_messages() {
    assert_eq!(VaultError::WrongPassword.message(), "Wrong password or corrupted header");
    assert_eq!(
        VaultError::NotAVault.message(),
        "Not a valid USB Vault device (bad magic or version)"
    );
    assert_eq!(VaultError::DeviceTooSmall.message(), "Device too small (less than header size)");
}

fn process_in_chunks(key: &[u8; 32], nonce: &[u8; 12], data: &[u8]) -> Vec<u8> {
    let mut out = Vec::new();
    let mut done: u64 = 0;
    while let Some(len) = next_chunk(data.len() as u64, done) {
        let start = done as usize;
        out.extend_from_slice(&aes256_ctr_process_from(key, nonce, done, &data[start..start + len]));
        done = after_read(done, len).unwrap();
    }
    out
}

#[test]
fn chunked_processing_roundtrip() {
    let key = [0x5cu8; 32];
    let nonce = [0x0fu8; 12];
    let data: Vec<u8> = (0..CHUNK_SIZE + 100).map(|i| (i % 251) as u8).collect();
    let encrypted = process_in_chunks(&key, &nonce, &data);
    assert_eq!(encrypted.len(), data.len());
    assert_ne!(encrypted, data);
    // the chunks share one counter stream
    assert_eq!(encrypted, aes256_ctr_process(&key, &nonce, &data));
    assert_eq!(process_in_chunks(&key, &nonce, &encrypted), data);
}

#[test]
fn after_read_positions() {
    assert_eq!(after_read(0, 0), None);
    assert_eq!(after_read(100, 0), None);
    assert_eq!(after_read(100, 28), Some(128));
}

#[test]
fn header_too_short_message() {
    assert_eq!(
        VaultError::HeaderTooShort.message(),
        "Cannot read header: failed to fill whole buffer"
    );
}
