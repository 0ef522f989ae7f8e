//! The vault header stored at the start of a device, and the decisions that
//! sealing and unlocking a device make: the device I/O itself stands outside
//! the library.

use vstd::prelude::*;

use crate::crypto::aes::{
    compute_verification_tag, ctr, ctr_from, lemma_ctr_from_roundtrip, lemma_ctr_roundtrip,
};
use crate::crypto::kdf::{derive_key, pbkdf2, PBKDF2_ITERATIONS};
use crate::crypto::sha256::sha256;
use vstd::string::StringSliceAdditionalSpecFns;

verus! {

/// Vault header magic bytes: "USBVAULT".
pub const VAULT_MAGIC: [u8; 8] = [0x55, 0x53, 0x42, 0x56, 0x41, 0x55, 0x4c, 0x54];
/// Header version.
pub const VAULT_VERSION: u8 = 1;
/// Salt size in bytes.
pub const SALT_SIZE: usize = 16;
/// Verification tag size.
pub const TAG_SIZE: usize = 32;
/// Nonce size for AES-256-CTR.
pub const NONCE_SIZE: usize = 12;
/// Total header size: magic(8) + version(1) + salt(16) + nonce(12) + tag(32) = 69.
pub const HEADER_SIZE: usize = 8 + 1 + SALT_SIZE + NONCE_SIZE + TAG_SIZE;

/// Vault header layout.
#[derive(Debug, Clone)]
pub struct VaultHeader {
    pub magic: [u8; 8],
    pub version: u8,
    pub salt: [u8; 16],
    pub nonce: [u8; 12],
    pub tag: [u8; 32],
}

/// The 69 bytes of a header: magic, version, salt, nonce and tag, in order.
pub open spec fn header_bytes(
    magic: Seq<u8>,
    version: u8,
    salt: Seq<u8>,
    nonce: Seq<u8>,
    tag: Seq<u8>,
) -> Seq<u8> {
    magic + seq![version] + salt + nonce + tag
}

impl VaultHeader {
    /// The header's bytes, as stored on the device.
    pub open spec fn bytes(&self) -> Seq<u8> {
        header_bytes(self.magic@, self.version, self.salt@, self.nonce@, self.tag@)
    }

    /// The header holds the fields read from the 69 bytes `b`.
    pub open spec fn read_from(&self, b: Seq<u8>) -> bool {
        &&& self.magic@ == b.subrange(0, 8)
        &&& self.version == b[8]
        &&& self.salt@ == b.subrange(9, 25)
        &&& self.nonce@ == b.subrange(25, 37)
        &&& self.tag@ == b.subrange(37, 69)
    }

    /// The header carries the vault magic and the current version.
    pub open spec fn valid(&self) -> bool {
        self.magic@ == VAULT_MAGIC@ && self.version == VAULT_VERSION
    }

    /// A header with the vault magic and version and the given salt, nonce
    /// and tag.
    pub fn new(salt: [u8; 16], nonce: [u8; 12], tag: [u8; 32]) -> (h: Self)
        ensures
            h.magic == VAULT_MAGIC,
            h.version == VAULT_VERSION,
            h.salt == salt,
            h.nonce == nonce,
            h.tag == tag,
    {
        VaultHeader { magic: VAULT_MAGIC, version: VAULT_VERSION, salt, nonce, tag }
    }

    /// The 69 bytes of the header.
    pub fn to_bytes(&self) -> (buf: [u8; 69])
        ensures
            buf@ == self.bytes(),
    {
        let mut buf = [0u8; 69];
        for i in 0..8
            invariant
                forall|k: int| 0 <= k < i ==> buf[k] == self.magic[k],
        {
            buf[i] = self.magic[i];
        }
        buf[8] = self.version;
        for i in 0..16
            invariant
                forall|k: int| 0 <= k < 8 ==> buf[k] == self.magic[k],
                buf[8] == self.version,
                forall|k: int| 0 <= k < i ==> buf[9 + k] == self.salt[k],
        {
            buf[9 + i] = self.salt[i];
        }
        for i in 0..12
            invariant
                forall|k: int| 0 <= k < 8 ==> buf[k] == self.magic[k],
                buf[8] == self.version,
                forall|k: int| 0 <= k < 16 ==> buf[9 + k] == self.salt[k],
                forall|k: int| 0 <= k < i ==> buf[25 + k] == self.nonce[k],
        {
            buf[25 + i] = self.nonce[i];
        }
        for i in 0..32
            invariant
                forall|k: int| 0 <= k < 8 ==> buf[k] == self.magic[k],
                buf[8] == self.version,
                forall|k: int| 0 <= k < 16 ==> buf[9 + k] == self.salt[k],
                forall|k: int| 0 <= k < 12 ==> buf[25 + k] == self.nonce[k],
                forall|k: int| 0 <= k < i ==> buf[37 + k] == self.tag[k],
        {
            buf[37 + i] = self.tag[i];
        }
        assert(buf@ =~= self.bytes());
        buf
    }

    /// Reads the fields of a header from its 69 bytes.
    pub fn from_bytes(buf: &[u8; 69]) -> (h: Self)
        ensures
            h.read_from(buf@),
    {
        let mut magic = [0u8; 8];
        for i in 0..8
            invariant
                forall|k: int| 0 <= k < i ==> magic[k] == buf[k],
        {
            magic[i] = buf[i];
        }
        let version = buf[8];
        let mut salt = [0u8; 16];
        for i in 0..16
            invariant
                forall|k: int| 0 <= k < i ==> salt[k] == buf[9 + k],
        {
            salt[i] = buf[9 + i];
        }
        let mut nonce = [0u8; 12];
        for i in 0..12
            invariant
                forall|k: int| 0 <= k < i ==> nonce[k] == buf[25 + k],
        {
            nonce[i] = buf[25 + i];
        }
        let mut tag = [0u8; 32];
        for i in 0..32
            invariant
                forall|k: int| 0 <= k < i ==> tag[k] == buf[37 + k],
        {
            tag[i] = buf[37 + i];
        }
        assert(magic@ =~= buf@.subrange(0, 8));
        assert(salt@ =~= buf@.subrange(9, 25));
        assert(nonce@ =~= buf@.subrange(25, 37));
        assert(tag@ =~= buf@.subrange(37, 69));
        VaultHeader { magic, version, salt, nonce, tag }
    }

    /// Whether the header carries the vault magic and the current version.
    pub fn is_valid(&self) -> (b: bool)
        ensures
            b == self.valid(),
    {
        let mut same = true;
        for i in 0..8
            invariant
                same == (forall|k: int| 0 <= k < i ==> self.magic[k] == VAULT_MAGIC[k]),
        {
            if self.magic[i] != VAULT_MAGIC[i] {
                same = false;
            }
        }
        proof {
            if same {
                assert(self.magic@ =~= VAULT_MAGIC@);
            }
        }
        same && self.version == VAULT_VERSION
    }
}

/// Reading a header back from the bytes written for it gives the same
/// fields.
pub proof fn lemma_header_roundtrip(h: VaultHeader, g: VaultHeader)
    requires
        g.read_from(h.bytes()),
    ensures
        g.magic@ == h.magic@,
        g.version == h.version,
        g.salt@ == h.salt@,
        g.nonce@ == h.nonce@,
        g.tag@ == h.tag@,
{
    let b = h.bytes();
    assert(b.subrange(0, 8) =~= h.magic@);
    assert(b.subrange(9, 25) =~= h.salt@);
    assert(b.subrange(25, 37) =~= h.nonce@);
    assert(b.subrange(37, 69) =~= h.tag@);
}

/// Writing the header read from 69 bytes gives back those bytes.
pub proof fn lemma_bytes_roundtrip(b: Seq<u8>, h: VaultHeader)
    requires
        b.len() == 69,
        h.read_from(b),
    ensures
        h.bytes() == b,
{
    assert(h.bytes() =~= b);
}

/// Why sealing or opening a vault failed.
#[derive(Debug, Clone, Copy, PartialEq, Eq, Structural)]
pub enum VaultError {
    /// The operating system's random source failed.
    RandomSource,
    /// The device cannot hold a header.
    DeviceTooSmall,
    /// Fewer than a header's bytes could be read from the device.
    HeaderTooShort,
    /// The first bytes are not a vault header (bad magic or version).
    NotAVault,
    /// The password does not give the key that the header's tag confirms.
    WrongPassword,
}

impl VaultError {
    /// The message shown for the error.
    pub fn message(&self) -> (m: &'static str)
        ensures
            *self == VaultError::RandomSource ==> m@ == "CSPRNG failure"@,
            *self == VaultError::DeviceTooSmall ==> m@ == "Device too small (less than header size)"@,
            *self == VaultError::HeaderTooShort ==> m@ == "Cannot read header: failed to fill whole buffer"@,
            *self == VaultError::NotAVault ==> m@ == "Not a valid USB Vault device (bad magic or version)"@,
            *self == VaultError::WrongPassword ==> m@ == "Wrong password or corrupted header"@,
    {
        match self {
            VaultError::RandomSource => "CSPRNG failure",
            VaultError::DeviceTooSmall => "Device too small (less than header size)",
            VaultError::HeaderTooShort => "Cannot read header: failed to fill whole buffer",
            VaultError::NotAVault => "Not a valid USB Vault device (bad magic or version)",
            VaultError::WrongPassword => "Wrong password or corrupted header",
        }
    }
}

/// The vault key of a password and salt: 32 bytes of PBKDF2-HMAC-SHA256
/// with 600 000 iterations.
pub open spec fn vault_key(password: Seq<u8>, salt: Seq<u8>) -> Seq<u8> {
    pbkdf2(password, salt, PBKDF2_ITERATIONS as nat, 32)
}

/// The first bytes of a device start a vault header: at least 69 bytes,
/// with the magic and the current version.
pub open spec fn starts_vault(prefix: Seq<u8>) -> bool {
    &&& prefix.len() >= 69
    &&& prefix.subrange(0, 8) == VAULT_MAGIC@
    &&& prefix[8] == VAULT_VERSION
}

/// Whether two 32-byte strings are equal.
fn bytes32_equal(a: &[u8; 32], b: &[u8; 32]) -> (r: bool)
    ensures
        r == (a@ == b@),
{
    let mut same = true;
    for i in 0..32
        invariant
            same == (forall|k: int| 0 <= k < i ==> a[k] == b[k]),
    {
        if a[i] != b[i] {
            same = false;
        }
    }
    proof {
        if same {
            assert(a@ =~= b@);
        }
    }
    same
}

/// Seals a vault for `password` with the given salt and nonce: derives the
/// key and builds the header whose tag confirms it. Returns the header and
/// the key.
pub fn seal_header(password: &str, salt: [u8; 16], nonce: [u8; 12]) -> (r: (VaultHeader, [u8; 32]))
    ensures
        r.1@ == vault_key(password.spec_bytes(), salt@),
        r.0.magic == VAULT_MAGIC,
        r.0.version == VAULT_VERSION,
        r.0.salt == salt,
        r.0.nonce == nonce,
        r.0.tag@ == sha256(r.1@ + nonce@),
{
    let key = derive_key(password, &salt);
    let tag = compute_verification_tag(&key, &nonce);
    (VaultHeader::new(salt, nonce, tag), key)
}

/// Reads a vault header from the first bytes of a device.
pub fn parse_header(prefix: &[u8]) -> (r: Result<VaultHeader, VaultError>)
    ensures
        prefix@.len() < 69 ==> r == Err::<VaultHeader, VaultError>(VaultError::HeaderTooShort),
        prefix@.len() >= 69 && !starts_vault(prefix@) ==> r == Err::<VaultHeader, VaultError>(
            VaultError::NotAVault,
        ),
        r is Ok <==> starts_vault(prefix@),
        r matches Ok(h) ==> h.read_from(prefix@.subrange(0, 69)) && h.valid(),
{
    if prefix.len() < HEADER_SIZE {
        return Err(VaultError::HeaderTooShort);
    }
    let mut buf = [0u8; 69];
    for i in 0..69
        invariant
            prefix@.len() >= 69,
            forall|k: int| 0 <= k < i ==> buf[k] == prefix@[k],
    {
        buf[i] = prefix[i];
    }
    assert(buf@ =~= prefix@.subrange(0, 69));
    let header = VaultHeader::from_bytes(&buf);
    assert(header.magic@ =~= prefix@.subrange(0, 8));
    if !header.is_valid() {
        return Err(VaultError::NotAVault);
    }
    Ok(header)
}

/// Whether the first bytes of a device hold a vault header.
pub fn is_encrypted(prefix: &[u8]) -> (b: bool)
    ensures
        b == starts_vault(prefix@),
{
    parse_header(prefix).is_ok()
}

/// Opens a vault with `password`: derives the key from the header's salt
/// and checks it against the header's tag.
pub fn unlock(header: &VaultHeader, password: &str) -> (r: Result<[u8; 32], VaultError>)
    ensures
        r is Ok <==> sha256(vault_key(password.spec_bytes(), header.salt@) + header.nonce@)
            == header.tag@,
        r matches Ok(key) ==> key@ == vault_key(password.spec_bytes(), header.salt@),
        r matches Err(e) ==> e == VaultError::WrongPassword,
{
    let key = derive_key(password, &header.salt);
    let expected_tag = compute_verification_tag(&key, &header.nonce);
    if !bytes32_equal(&expected_tag, &header.tag) {
        return Err(VaultError::WrongPassword);
    }
    Ok(key)
}

/// A vault sealed with a password opens with that password: the tag that
/// sealing writes is the one that unlocking expects, and counter mode under
/// the sealed key and the header's nonce gives back the data it encrypted.
pub proof fn lemma_sealed_vault_opens(password: Seq<u8>, h: VaultHeader, key: Seq<u8>, data: Seq<u8>)
    requires
        key == vault_key(password, h.salt@),
        h.tag@ == sha256(key + h.nonce@),
    ensures
        sha256(vault_key(password, h.salt@) + h.nonce@) == h.tag@,
        ctr(key, h.nonce@, ctr(key, h.nonce@, data)) == data,
{
    lemma_ctr_roundtrip(key, h.nonce@, data);
}

#[verifier::external_type_specification]
#[verifier::external_body]
pub struct ExRandomError(getrandom::Error);

/// Calls `getrandom::getrandom`, which fills `dest` from the operating
/// system's random source or returns its error. The contract states only
/// that the buffer keeps its length: what the bytes are is left open.
#[verifier::external_body]
fn fill_random(dest: &mut [u8]) -> (r: Result<(), getrandom::Error>)
    ensures
        final(dest)@.len() == old(dest)@.len(),
{
    getrandom::getrandom(dest)
}

/// 16 random bytes.
fn random_bytes_16() -> (r: Result<[u8; 16], VaultError>)
    ensures
        r matches Err(e) ==> e == VaultError::RandomSource,
{
    let mut buf = [0u8; 16];
    match fill_random(&mut buf) {
        Ok(()) => Ok(buf),
        Err(_) => Err(VaultError::RandomSource),
    }
}

/// 12 random bytes.
fn random_bytes_12() -> (r: Result<[u8; 12], VaultError>)
    ensures
        r matches Err(e) ==> e == VaultError::RandomSource,
{
    let mut buf = [0u8; 12];
    match fill_random(&mut buf) {
        Ok(()) => Ok(buf),
        Err(_) => Err(VaultError::RandomSource),
    }
}

/// Seals a new vault for `password` with a random salt and nonce. Whatever
/// the random source gives, a sealed header is valid, its key is the
/// password's key under its salt, and its tag confirms that key.
pub fn new_vault(password: &str) -> (r: Result<(VaultHeader, [u8; 32]), VaultError>)
    ensures
        r matches Ok((h, key)) ==> {
            &&& h.valid()
            &&& key@ == vault_key(password.spec_bytes(), h.salt@)
            &&& h.tag@ == sha256(key@ + h.nonce@)
        },
        r matches Err(e) ==> e == VaultError::RandomSource,
{
    let salt = match random_bytes_16() {
        Ok(s) => s,
        Err(e) => return Err(e),
    };
    let nonce = match random_bytes_12() {
        Ok(n) => n,
        Err(e) => return Err(e),
    };
    let (header, key) = seal_header(password, salt, nonce);
    Ok((header, key))
}

/// Size of the chunks in which device data is encrypted or decrypted; each
/// chunk continues the counter stream where the one before ended.
pub const CHUNK_SIZE: usize = 1048576;

/// The number of data bytes after the header on a device of `dev_size`
/// bytes.
pub fn data_size(dev_size: u64) -> (r: Result<u64, VaultError>)
    ensures
        dev_size < 69 ==> r == Err::<u64, VaultError>(VaultError::DeviceTooSmall),
        dev_size >= 69 ==> r == Ok::<u64, VaultError>((dev_size - 69) as u64),
{
    if dev_size < HEADER_SIZE as u64 {
        return Err(VaultError::DeviceTooSmall);
    }
    Ok(dev_size - HEADER_SIZE as u64)
}

/// The length of the next chunk to process when `done` of `total` data
/// bytes are processed, or `None` when all are.
pub fn next_chunk(total: u64, done: u64) -> (r: Option<usize>)
    ensures
        done >= total ==> r is None,
        done < total ==> r == Some(
            if total - done < CHUNK_SIZE { (total - done) as usize } else { CHUNK_SIZE },
        ),
{
    if done >= total {
        return None;
    }
    let left = total - done;
    if left < CHUNK_SIZE as u64 {
        Some(left as usize)
    } else {
        Some(CHUNK_SIZE)
    }
}

/// The device data from byte `done` on after counter mode is run over it
/// chunk by chunk, as [`next_chunk`] cuts it: each chunk of [`CHUNK_SIZE`]
/// bytes (the last one shorter) processed at its own offset of the key
/// stream.
pub open spec fn chunked_ctr(key: Seq<u8>, nonce: Seq<u8>, done: int, data: Seq<u8>) -> Seq<u8>
    decreases data.len(),
{
    if data.len() <= CHUNK_SIZE {
        ctr_from(key, nonce, done, data)
    } else {
        ctr_from(key, nonce, done, data.take(CHUNK_SIZE as int)) + chunked_ctr(
            key,
            nonce,
            done + CHUNK_SIZE,
            data.skip(CHUNK_SIZE as int),
        )
    }
}

/// Processing the device data chunk by chunk gives one counter stream over
/// the whole data: the same as counter mode over it in one piece.
pub proof fn lemma_chunked_ctr_is_ctr(key: Seq<u8>, nonce: Seq<u8>, done: int, data: Seq<u8>)
    ensures
        chunked_ctr(key, nonce, done, data) == ctr_from(key, nonce, done, data),
    decreases data.len(),
{
    if data.len() > CHUNK_SIZE {
        let tail = data.skip(CHUNK_SIZE as int);
        lemma_chunked_ctr_is_ctr(key, nonce, done + CHUNK_SIZE, tail);
        assert(chunked_ctr(key, nonce, done, data) =~= ctr_from(key, nonce, done, data));
    }
}

/// Decrypting a device's data chunk by chunk gives back the data that was
/// encrypted chunk by chunk under the same key and nonce.
pub proof fn lemma_chunked_ctr_roundtrip(key: Seq<u8>, nonce: Seq<u8>, done: int, data: Seq<u8>)
    ensures
        chunked_ctr(key, nonce, done, chunked_ctr(key, nonce, done, data)) == data,
{
    lemma_chunked_ctr_is_ctr(key, nonce, done, data);
    lemma_chunked_ctr_is_ctr(key, nonce, done, ctr_from(key, nonce, done, data));
    lemma_ctr_from_roundtrip(key, nonce, done, data);
}

/// The position in the device data after a read of `read` bytes at `done`:
/// `None` when nothing was read (the end of the device), else the position
/// after the bytes read.
pub fn after_read(done: u64, read: usize) -> (r: Option<u64>)
    requires
        done + read <= u64::MAX,
    ensures
        read == 0 ==> r is None,
        read > 0 ==> r == Some((done + read) as u64),
{
    if read == 0 {
        None
    } else {
        Some(done + read as u64)
    }
}

} // verus!
