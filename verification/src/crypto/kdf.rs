//! HMAC-SHA256 (RFC 2104) and PBKDF2-HMAC-SHA256 (RFC 8018) key derivation.

use vstd::prelude::*;

use super::sha256::{
    compress, compress_exec, hash_blocks, lemma_hash_one_block, sha256, sha256_digest,
    sha256_finish, H0,
};
use super::words::word_byte;
use vstd::string::StringSliceAdditionalSpecFns;

verus! {

/// Iterations of PBKDF2 used to derive a vault key.
pub const PBKDF2_ITERATIONS: u32 = 600_000;

/// The HMAC key block: the key (or its digest, when longer than 64 bytes)
/// followed by zero bytes up to 64 bytes.
pub open spec fn hmac_key_block(key: Seq<u8>) -> Seq<u8> {
    let k = if key.len() <= 64 {
        key
    } else {
        sha256(key)
    };
    k + Seq::new((64 - k.len()) as nat, |i: int| 0u8)
}

/// Each byte of a 64-byte block xored with `p`.
pub open spec fn xor_pad(k: Seq<u8>, p: u8) -> Seq<u8> {
    Seq::new(64, |i: int| k[i] ^ p)
}

/// HMAC-SHA256 of `msg` under `key`:
/// `H((K ^ opad) || H((K ^ ipad) || msg))`.
pub open spec fn hmac(key: Seq<u8>, msg: Seq<u8>) -> Seq<u8> {
    let kb = hmac_key_block(key);
    sha256(xor_pad(kb, 0x5cu8) + sha256(xor_pad(kb, 0x36u8) + msg))
}

/// The hash states after the inner and the outer padded key block, so that
/// each HMAC under one key costs two compressions less.
struct HmacKey {
    inner: [u32; 8],
    outer: [u32; 8],
}

impl HmacKey {
    /// The states hold the padded key blocks of `key`.
    spec fn keyed(&self, key: Seq<u8>) -> bool {
        &&& self.inner@ == hash_blocks(H0@, xor_pad(hmac_key_block(key), 0x36u8))
        &&& self.outer@ == hash_blocks(H0@, xor_pad(hmac_key_block(key), 0x5cu8))
    }
}

fn hmac_key(key: &[u8]) -> (hk: HmacKey)
    ensures
        hk.keyed(key@),
{
    let mut kb = [0u8; 64];
    if key.len() <= 64 {
        for i in 0..key.len()
            invariant
                key@.len() <= 64,
                forall|k: int| 0 <= k < i ==> kb[k] == key@[k],
                forall|k: int| i <= k < 64 ==> kb[k] == 0,
        {
            kb[i] = key[i];
        }
    } else {
        let d = sha256_digest(key);
        for i in 0..32
            invariant
                d@ == sha256(key@),
                forall|k: int| 0 <= k < i ==> kb[k] == d[k],
                forall|k: int| i <= k < 64 ==> kb[k] == 0,
        {
            kb[i] = d[i];
        }
    }
    assert(kb@ =~= hmac_key_block(key@));
    let mut ipad = [0u8; 64];
    let mut opad = [0u8; 64];
    for i in 0..64
        invariant
            forall|k: int| 0 <= k < i ==> ipad[k] == kb[k] ^ 0x36u8 && opad[k] == kb[k] ^ 0x5cu8,
    {
        ipad[i] = kb[i] ^ 0x36;
        opad[i] = kb[i] ^ 0x5c;
    }
    assert(ipad@ =~= xor_pad(kb@, 0x36u8));
    assert(opad@ =~= xor_pad(kb@, 0x5cu8));
    assert(ipad@.subrange(0, 64) =~= ipad@);
    assert(opad@.subrange(0, 64) =~= opad@);
    let inner = compress_exec(&H0, &ipad, 0);
    let outer = compress_exec(&H0, &opad, 0);
    proof {
        lemma_hash_one_block(H0@, ipad@);
        lemma_hash_one_block(H0@, opad@);
    }
    HmacKey { inner, outer }
}

fn hmac_with(hk: &HmacKey, Ghost(key): Ghost<Seq<u8>>, data: &[u8]) -> (out: [u8; 32])
    requires
        hk.keyed(key),
        data.len() + 64 <= usize::MAX,
    ensures
        out@ == hmac(key, data@),
{
    let ghost kb = hmac_key_block(key);
    let inner = sha256_finish(&hk.inner, 64, Ghost(xor_pad(kb, 0x36u8)), data);
    sha256_finish(&hk.outer, 64, Ghost(xor_pad(kb, 0x5cu8)), &inner)
}

/// HMAC-SHA256 of `data` under `key`.
pub fn hmac_sha256(key: &[u8], data: &[u8]) -> (out: [u8; 32])
    requires
        data.len() + 64 <= usize::MAX,
    ensures
        out@ == hmac(key@, data@),
{
    let hk = hmac_key(key);
    hmac_with(&hk, Ghost(key@), data)
}

/// A 32-bit block index as 4 big-endian bytes.
pub open spec fn be32_bytes(i: u32) -> Seq<u8> {
    seq![word_byte(i, 0), word_byte(i, 1), word_byte(i, 2), word_byte(i, 3)]
}

/// Bytewise xor of two sequences of the same length.
pub open spec fn xor_bytes(a: Seq<u8>, b: Seq<u8>) -> Seq<u8> {
    Seq::new(a.len(), |k: int| a[k] ^ b[k])
}

/// `U_j` of PBKDF2 for block `i` (`j >= 1`): `U_1 = PRF(P, S || INT(i))`,
/// `U_j = PRF(P, U_{j-1})`.
pub open spec fn pbkdf2_u(password: Seq<u8>, salt: Seq<u8>, i: u32, j: nat) -> Seq<u8>
    decreases j,
{
    if j <= 1 {
        hmac(password, salt + be32_bytes(i))
    } else {
        hmac(password, pbkdf2_u(password, salt, i, (j - 1) as nat))
    }
}

/// `F(P, S, c, i) = U_1 ^ U_2 ^ ... ^ U_c` (`c >= 1`).
pub open spec fn pbkdf2_f(password: Seq<u8>, salt: Seq<u8>, c: nat, i: u32) -> Seq<u8>
    decreases c,
{
    if c <= 1 {
        pbkdf2_u(password, salt, i, 1)
    } else {
        xor_bytes(pbkdf2_f(password, salt, (c - 1) as nat, i), pbkdf2_u(password, salt, i, c))
    }
}

/// The concatenation `T_1 || ... || T_n`, with each block index taken
/// modulo 2^32.
pub open spec fn pbkdf2_blocks(password: Seq<u8>, salt: Seq<u8>, c: nat, n: nat) -> Seq<u8>
    decreases n,
{
    if n == 0 {
        Seq::empty()
    } else {
        pbkdf2_blocks(password, salt, c, (n - 1) as nat) + pbkdf2_f(
            password,
            salt,
            c,
            (n % 0x1_0000_0000) as u32,
        )
    }
}

/// PBKDF2-HMAC-SHA256 with `c` iterations: the first `dk_len` bytes of
/// `T_1 || T_2 || ...`.
pub open spec fn pbkdf2(password: Seq<u8>, salt: Seq<u8>, c: nat, dk_len: nat) -> Seq<u8> {
    pbkdf2_blocks(password, salt, c, ((dk_len + 31) / 32) as nat).take(dk_len as int)
}


/// Every block `T_i` is 32 bytes long.
proof fn lemma_pbkdf2_f_len(password: Seq<u8>, salt: Seq<u8>, c: nat, i: u32)
    ensures
        pbkdf2_f(password, salt, c, i).len() == 32,
    decreases c,
{
    if c > 1 {
        lemma_pbkdf2_f_len(password, salt, (c - 1) as nat, i);
    }
}

/// `T_1 || ... || T_n` is `32 n` bytes long.
proof fn lemma_pbkdf2_blocks_len(password: Seq<u8>, salt: Seq<u8>, c: nat, n: nat)
    ensures
        pbkdf2_blocks(password, salt, c, n).len() == 32 * n,
    decreases n,
{
    if n > 0 {
        lemma_pbkdf2_blocks_len(password, salt, c, (n - 1) as nat);
        lemma_pbkdf2_f_len(password, salt, c, (n % 0x1_0000_0000) as u32);
    }
}

/// The derived key has exactly the requested length.
pub proof fn lemma_pbkdf2_len(password: Seq<u8>, salt: Seq<u8>, c: nat, dk_len: nat)
    ensures
        pbkdf2(password, salt, c, dk_len).len() == dk_len,
{
    let n = ((dk_len + 31) / 32) as nat;
    lemma_pbkdf2_blocks_len(password, salt, c, n);
    assert(32 * n >= dk_len) by (nonlinear_arith)
        requires n == (dk_len + 31) / 32;
}

/// `T_1 || ... || T_m` is a prefix of `T_1 || ... || T_n` for `m <= n`.
proof fn lemma_pbkdf2_blocks_prefix(password: Seq<u8>, salt: Seq<u8>, c: nat, m: nat, n: nat)
    requires
        m <= n,
    ensures
        pbkdf2_blocks(password, salt, c, n).take(32 * m as int) == pbkdf2_blocks(password, salt, c, m),
    decreases n,
{
    lemma_pbkdf2_blocks_len(password, salt, c, n);
    lemma_pbkdf2_blocks_len(password, salt, c, m);
    if m == n {
        assert(pbkdf2_blocks(password, salt, c, n).take(32 * m as int) =~= pbkdf2_blocks(password, salt, c, m));
    } else {
        let prev = pbkdf2_blocks(password, salt, c, (n - 1) as nat);
        lemma_pbkdf2_blocks_len(password, salt, c, (n - 1) as nat);
        lemma_pbkdf2_blocks_prefix(password, salt, c, m, (n - 1) as nat);
        assert(pbkdf2_blocks(password, salt, c, n).take(32 * m as int) =~= prev.take(32 * m as int));
    }
}

/// A shorter derived key is a prefix of a longer one from the same
/// password, salt and iteration count.
pub proof fn lemma_pbkdf2_prefix(password: Seq<u8>, salt: Seq<u8>, c: nat, m: nat, n: nat)
    requires
        m <= n,
    ensures
        pbkdf2(password, salt, c, m) == pbkdf2(password, salt, c, n).take(m as int),
{
    let bm = ((m + 31) / 32) as nat;
    let bn = ((n + 31) / 32) as nat;
    assert(bm <= bn && m <= 32 * bm) by (nonlinear_arith)
        requires
            m <= n,
            bm == (m + 31) / 32,
            bn == (n + 31) / 32,
    ;
    lemma_pbkdf2_blocks_prefix(password, salt, c, bm, bn);
    lemma_pbkdf2_blocks_len(password, salt, c, bn);
    lemma_pbkdf2_blocks_len(password, salt, c, bm);
    lemma_pbkdf2_len(password, salt, c, n);
    assert(pbkdf2(password, salt, c, m) =~= pbkdf2(password, salt, c, n).take(m as int));
}

/// The block `T_i = F(P, S, c, i)` of PBKDF2, with the HMAC key states of
/// the password.
fn pbkdf2_block(hk: &HmacKey, Ghost(p): Ghost<Seq<u8>>, salt: &[u8], bi: u32) -> (t: [u8; 32])
    requires
        hk.keyed(p),
        salt.len() + 68 <= usize::MAX,
    ensures
        t@ == pbkdf2_f(p, salt@, PBKDF2_ITERATIONS as nat, bi),
{
    let mut msg: Vec<u8> = Vec::new();
    msg.extend_from_slice(salt);
    msg.push((bi >> 24u32) as u8);
    msg.push((bi >> 16u32) as u8);
    msg.push((bi >> 8u32) as u8);
    msg.push(bi as u8);
    assert(msg@ =~= salt@ + be32_bytes(bi));
    let mut u = hmac_with(&hk, Ghost(p), msg.as_slice());
    let mut t = u;
    let mut j: u32 = 1;
    while j < PBKDF2_ITERATIONS
        invariant
            hk.keyed(p),
            1 <= j <= PBKDF2_ITERATIONS,
            u@ == pbkdf2_u(p, salt@, bi, j as nat),
            t@ == pbkdf2_f(p, salt@, j as nat, bi),
        decreases PBKDF2_ITERATIONS - j,
    {
        u = hmac_with(&hk, Ghost(p), &u);
        let ghost t0 = t@;
        for k in 0..32
            invariant
                forall|m: int| 0 <= m < k ==> t[m] == t0[m] ^ u[m],
                forall|m: int| k <= m < 32 ==> t[m] == t0[m],
        {
            t[k] = t[k] ^ u[k];
        }
        j = j + 1;
        assert(t@ =~= xor_bytes(t0, u@));
    }
    t
}

/// Appends the 32 bytes of a block.
fn append_block(derived: &mut Vec<u8>, t: &[u8; 32])
    ensures
        final(derived)@ == old(derived)@ + t@,
{
    let ghost before = derived@;
    for k in 0..32
        invariant
            derived@ == before + t@.take(k as int),
    {
        derived.push(t[k]);
        assert(t@.take(k + 1) =~= t@.take(k as int).push(t[k as int]));
    }
    assert(t@.take(32) =~= t@);
}

/// PBKDF2-HMAC-SHA256 with 600 000 iterations: derives `dk_len` bytes from
/// `password` and `salt`.
pub fn pbkdf2_sha256(password: &[u8], salt: &[u8], dk_len: usize) -> (dk: Vec<u8>)
    requires
        dk_len + 31 <= usize::MAX,
        salt.len() + 68 <= usize::MAX,
    ensures
        dk@ == pbkdf2(password@, salt@, PBKDF2_ITERATIONS as nat, dk_len as nat),
{
    let ghost p = password@;
    let ghost c = PBKDF2_ITERATIONS as nat;
    let hk = hmac_key(password);
    let l = (dk_len + 31) / 32;
    let mut derived: Vec<u8> = Vec::new();
    let mut block: usize = 1;
    while block <= l
        invariant
            hk.keyed(p),
            p == password@,
            c == PBKDF2_ITERATIONS as nat,
            salt.len() + 68 <= usize::MAX,
            l == (dk_len + 31) / 32,
            1 <= block <= l + 1,
            derived@ == pbkdf2_blocks(p, salt@, c, (block - 1) as nat),
            derived@.len() == 32 * (block - 1),
        decreases l + 1 - block,
    {
        let bi: u32 = ((block as u64) % 0x1_0000_0000u64) as u32;
        let t = pbkdf2_block(&hk, Ghost(p), salt, bi);
        proof {
            assert(bi == (block as int % 0x1_0000_0000) as u32);
        }
        append_block(&mut derived, &t);
        block = block + 1;
    }
    derived.truncate(dk_len);
    proof {
        assert(32 * l >= dk_len) by (nonlinear_arith)
            requires l == (dk_len + 31) / 32;
    }
    derived
}

/// Derives the 32-byte AES-256 key of a vault from a password and its salt.
pub fn derive_key(password: &str, salt: &[u8; 16]) -> (key: [u8; 32])
    ensures
        key@ == pbkdf2(password.spec_bytes(), salt@, PBKDF2_ITERATIONS as nat, 32),
{
    let dk = pbkdf2_sha256(password.as_bytes(), salt, 32);
    proof {
        lemma_pbkdf2_len(password.spec_bytes(), salt@, PBKDF2_ITERATIONS as nat, 32);
    }
    let mut key = [0u8; 32];
    for i in 0..32
        invariant
            dk@.len() == 32,
            forall|k: int| 0 <= k < i ==> key[k] == dk@[k],
    {
        key[i] = dk[i];
    }
    assert(key@ =~= dk@);
    key
}

} // verus!
