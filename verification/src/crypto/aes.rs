//! AES-256 (FIPS-197) and counter mode (NIST SP 800-38A).

use vstd::prelude::*;

use super::gf256::{gf256_mul, gf_mul};
use super::sha256::{sha256, sha256_digest};
use super::words::{be32, be32_exec, word_byte};

verus! {

/// The AES substitution box (FIPS-197, figure 7).
pub const SBOX: [u8; 256] = [
    0x63, 0x7c, 0x77, 0x7b, 0xf2, 0x6b, 0x6f, 0xc5, 0x30, 0x01, 0x67, 0x2b, 0xfe, 0xd7, 0xab, 0x76,
    0xca, 0x82, 0xc9, 0x7d, 0xfa, 0x59, 0x47, 0xf0, 0xad, 0xd4, 0xa2, 0xaf, 0x9c, 0xa4, 0x72, 0xc0,
    0xb7, 0xfd, 0x93, 0x26, 0x36, 0x3f, 0xf7, 0xcc, 0x34, 0xa5, 0xe5, 0xf1, 0x71, 0xd8, 0x31, 0x15,
    0x04, 0xc7, 0x23, 0xc3, 0x18, 0x96, 0x05, 0x9a, 0x07, 0x12, 0x80, 0xe2, 0xeb, 0x27, 0xb2, 0x75,
    0x09, 0x83, 0x2c, 0x1a, 0x1b, 0x6e, 0x5a, 0xa0, 0x52, 0x3b, 0xd6, 0xb3, 0x29, 0xe3, 0x2f, 0x84,
    0x53, 0xd1, 0x00, 0xed, 0x20, 0xfc, 0xb1, 0x5b, 0x6a, 0xcb, 0xbe, 0x39, 0x4a, 0x4c, 0x58, 0xcf,
    0xd0, 0xef, 0xaa, 0xfb, 0x43, 0x4d, 0x33, 0x85, 0x45, 0xf9, 0x02, 0x7f, 0x50, 0x3c, 0x9f, 0xa8,
    0x51, 0xa3, 0x40, 0x8f, 0x92, 0x9d, 0x38, 0xf5, 0xbc, 0xb6, 0xda, 0x21, 0x10, 0xff, 0xf3, 0xd2,
    0xcd, 0x0c, 0x13, 0xec, 0x5f, 0x97, 0x44, 0x17, 0xc4, 0xa7, 0x7e, 0x3d, 0x64, 0x5d, 0x19, 0x73,
    0x60, 0x81, 0x4f, 0xdc, 0x22, 0x2a, 0x90, 0x88, 0x46, 0xee, 0xb8, 0x14, 0xde, 0x5e, 0x0b, 0xdb,
    0xe0, 0x32, 0x3a, 0x0a, 0x49, 0x06, 0x24, 0x5c, 0xc2, 0xd3, 0xac, 0x62, 0x91, 0x95, 0xe4, 0x79,
    0xe7, 0xc8, 0x37, 0x6d, 0x8d, 0xd5, 0x4e, 0xa9, 0x6c, 0x56, 0xf4, 0xea, 0x65, 0x7a, 0xae, 0x08,
    0xba, 0x78, 0x25, 0x2e, 0x1c, 0xa6, 0xb4, 0xc6, 0xe8, 0xdd, 0x74, 0x1f, 0x4b, 0xbd, 0x8b, 0x8a,
    0x70, 0x3e, 0xb5, 0x66, 0x48, 0x03, 0xf6, 0x0e, 0x61, 0x35, 0x57, 0xb9, 0x86, 0xc1, 0x1d, 0x9e,
    0xe1, 0xf8, 0x98, 0x11, 0x69, 0xd9, 0x8e, 0x94, 0x9b, 0x1e, 0x87, 0xe9, 0xce, 0x55, 0x28, 0xdf,
    0x8c, 0xa1, 0x89, 0x0d, 0xbf, 0xe6, 0x42, 0x68, 0x41, 0x99, 0x2d, 0x0f, 0xb0, 0x54, 0xbb, 0x16,
];


/// Number of bytes in an AES block.
pub const AES_BLOCK_SIZE: usize = 16;
/// Number of bytes in an AES-256 key.
pub const AES_256_KEY_SIZE: usize = 32;

/// The round constants: `RCON[i]` is `x^i` in GF(2^8).
pub const RCON: [u8; 14] = [
    0x01, 0x02, 0x04, 0x08, 0x10, 0x20, 0x40, 0x80, 0x1b, 0x36, 0x6c, 0xd8, 0xab, 0x4d,
];

/// Each round constant is the previous one multiplied by `x`, starting from 1.
pub proof fn lemma_rcon_powers_of_x(i: int)
    requires
        0 <= i < 13,
    ensures
        RCON[0] == 1u8,
        RCON[i + 1] == gf_mul(RCON[i], 2u8),
{
    assert(gf_mul(0x01u8, 2u8) == 0x02u8 && gf_mul(0x02u8, 2u8) == 0x04u8 && gf_mul(0x04u8, 2u8)
        == 0x08u8 && gf_mul(0x08u8, 2u8) == 0x10u8 && gf_mul(0x10u8, 2u8) == 0x20u8 && gf_mul(
        0x20u8,
        2u8,
    ) == 0x40u8 && gf_mul(0x40u8, 2u8) == 0x80u8 && gf_mul(0x80u8, 2u8) == 0x1bu8 && gf_mul(
        0x1bu8,
        2u8,
    ) == 0x36u8 && gf_mul(0x36u8, 2u8) == 0x6cu8 && gf_mul(0x6cu8, 2u8) == 0xd8u8 && gf_mul(
        0xd8u8,
        2u8,
    ) == 0xabu8 && gf_mul(0xabu8, 2u8) == 0x4du8) by (bit_vector);
}

/// The S-box as a function on bytes.
pub open spec fn sbox(x: u8) -> u8 {
    SBOX[x as int]
}

/// SubWord: the S-box applied to each byte of a word.
pub open spec fn sub_word(w: u32) -> u32 {
    be32(sbox(word_byte(w, 0)), sbox(word_byte(w, 1)), sbox(word_byte(w, 2)), sbox(word_byte(w, 3)))
}

/// RotWord: a cyclic rotation of a word by one byte to the left.
pub open spec fn rot_word(w: u32) -> u32 {
    (w << 8u32) | (w >> 24u32)
}

/// Word `i` of the AES-256 key schedule (FIPS-197, section 5.2, Nk = 8).
pub open spec fn key_word(key: Seq<u8>, i: nat) -> u32
    decreases i,
{
    if i < 8 {
        let k = 4 * i as int;
        be32(key[k], key[k + 1], key[k + 2], key[k + 3])
    } else {
        let prev = key_word(key, (i - 1) as nat);
        let temp = if i % 8 == 0 {
            sub_word(rot_word(prev)) ^ ((RCON[i / 8 - 1] as u32) << 24u32)
        } else if i % 8 == 4 {
            sub_word(prev)
        } else {
            prev
        };
        key_word(key, (i - 8) as nat) ^ temp
    }
}

/// Round key `r` as 16 bytes: the words `4r .. 4r + 3` of the key schedule,
/// each in big-endian order.
pub open spec fn round_key(key: Seq<u8>, r: int) -> Seq<u8> {
    Seq::new(16, |j: int| word_byte(key_word(key, (4 * r + j / 4) as nat), j % 4))
}

/// The 15 round keys of AES-256.
pub open spec fn key_schedule(key: Seq<u8>) -> Seq<Seq<u8>> {
    Seq::new(15, |r: int| round_key(key, r))
}

/// AddRoundKey: xor of the state with a round key.
pub open spec fn add_round_key(s: Seq<u8>, k: Seq<u8>) -> Seq<u8> {
    Seq::new(16, |i: int| s[i] ^ k[i])
}

/// SubBytes: the S-box applied to each byte of the state.
pub open spec fn sub_bytes(s: Seq<u8>) -> Seq<u8> {
    Seq::new(16, |i: int| sbox(s[i]))
}

/// ShiftRows: row `r` of the state (the bytes `r, r + 4, r + 8, r + 12`)
/// rotated left by `r` positions.
pub open spec fn shift_rows_spec(s: Seq<u8>) -> Seq<u8> {
    Seq::new(16, |i: int| s[i % 4 + 4 * ((i / 4 + i % 4) % 4)])
}

/// Row `r` of MixColumns applied to the column that starts at byte `c`.
pub open spec fn mix_byte(s: Seq<u8>, c: int, r: int) -> u8 {
    let s0 = s[c];
    let s1 = s[c + 1];
    let s2 = s[c + 2];
    let s3 = s[c + 3];
    if r == 0 {
        gf_mul(s0, 2u8) ^ gf_mul(s1, 3u8) ^ s2 ^ s3
    } else if r == 1 {
        s0 ^ gf_mul(s1, 2u8) ^ gf_mul(s2, 3u8) ^ s3
    } else if r == 2 {
        s0 ^ s1 ^ gf_mul(s2, 2u8) ^ gf_mul(s3, 3u8)
    } else {
        gf_mul(s0, 3u8) ^ s1 ^ s2 ^ gf_mul(s3, 2u8)
    }
}

/// MixColumns: each column multiplied by the fixed polynomial
/// `{03}x^3 + {01}x^2 + {01}x + {02}`.
pub open spec fn mix_columns_spec(s: Seq<u8>) -> Seq<u8> {
    Seq::new(16, |i: int| mix_byte(s, i - i % 4, i % 4))
}

/// The state after rounds `0 ..= r` of the cipher (`r <= 13`), given the
/// round keys.
pub open spec fn cipher_state(rks: Seq<Seq<u8>>, input: Seq<u8>, r: nat) -> Seq<u8>
    decreases r,
{
    if r == 0 {
        add_round_key(input, rks[0])
    } else {
        add_round_key(
            mix_columns_spec(shift_rows_spec(sub_bytes(cipher_state(rks, input, (r - 1) as nat)))),
            rks[r as int],
        )
    }
}

/// The AES-256 cipher with the given round keys: 13 full rounds and a last
/// round without MixColumns.
pub open spec fn cipher(rks: Seq<Seq<u8>>, input: Seq<u8>) -> Seq<u8> {
    add_round_key(shift_rows_spec(sub_bytes(cipher_state(rks, input, 13))), rks[14])
}

/// AES-256 encryption of one block under a 32-byte key.
pub open spec fn aes256_encrypt(key: Seq<u8>, input: Seq<u8>) -> Seq<u8> {
    cipher(key_schedule(key), input)
}

/// The 15 round keys held in an array, as sequences.
pub open spec fn round_keys_view(rk: [[u8; 16]; 15]) -> Seq<Seq<u8>> {
    Seq::new(15, |r: int| rk[r]@)
}

/// The counter block for block `n` of a message: the 12-byte nonce followed
/// by `n` modulo 2^32 as a big-endian 32-bit counter.
pub open spec fn counter_block_bytes(nonce: Seq<u8>, n: int) -> Seq<u8> {
    let c = (n % 0x1_0000_0000) as u32;
    nonce + seq![word_byte(c, 0), word_byte(c, 1), word_byte(c, 2), word_byte(c, 3)]
}

/// Byte `i` of the key stream: byte `i mod 16` of the encrypted counter
/// block `i / 16`.
pub open spec fn keystream_byte(key: Seq<u8>, nonce: Seq<u8>, i: int) -> u8 {
    aes256_encrypt(key, counter_block_bytes(nonce, i / 16))[i % 16]
}

/// AES-256 in counter mode from byte `offset` of the key stream on.
pub open spec fn ctr_from(key: Seq<u8>, nonce: Seq<u8>, offset: int, data: Seq<u8>) -> Seq<u8> {
    Seq::new(data.len(), |i: int| data[i] ^ keystream_byte(key, nonce, offset + i))
}

/// AES-256 in counter mode: each byte xored with the key stream.
pub open spec fn ctr(key: Seq<u8>, nonce: Seq<u8>, data: Seq<u8>) -> Seq<u8> {
    Seq::new(data.len(), |i: int| data[i] ^ keystream_byte(key, nonce, i))
}

// ── Key schedule ───────────────────────────────────────────────────────────

fn sub_word_exec(w: u32) -> (r: u32)
    ensures
        r == sub_word(w),
{
    be32_exec(
        SBOX[(w >> 24u32) as u8 as usize],
        SBOX[(w >> 16u32) as u8 as usize],
        SBOX[(w >> 8u32) as u8 as usize],
        SBOX[w as u8 as usize],
    )
}

/// Expands a 32-byte key into the 15 round keys of AES-256.
pub fn key_expansion(key: &[u8; 32]) -> (rk: [[u8; 16]; 15])
    ensures
        round_keys_view(rk) == key_schedule(key@),
{
    let mut w = [0u32; 60];
    for i in 0..8
        invariant
            forall|j: int| 0 <= j < i ==> w[j] == key_word(key@, j as nat),
    {
        w[i] = be32_exec(key[4 * i], key[4 * i + 1], key[4 * i + 2], key[4 * i + 3]);
    }
    for i in 8..60
        invariant
            forall|j: int| 0 <= j < i ==> w[j] == key_word(key@, j as nat),
    {
        let mut temp = w[i - 1];
        if i % 8 == 0 {
            temp = sub_word_exec((temp << 8u32) | (temp >> 24u32)) ^ ((RCON[i / 8 - 1] as u32)
                << 24u32);
        } else if i % 8 == 4 {
            temp = sub_word_exec(temp);
        }
        w[i] = w[i - 8] ^ temp;
    }
    let mut rk = [[0u8; 16]; 15];
    for r in 0..15
        invariant
            forall|j: int| 0 <= j < 60 ==> w[j] == key_word(key@, j as nat),
            forall|q: int| 0 <= q < r ==> rk[q]@ == round_key(key@, q),
    {
        let mut row = [0u8; 16];
        for j in 0..4
            invariant
                0 <= r < 15,
                forall|k: int| 0 <= k < 60 ==> w[k] == key_word(key@, k as nat),
                forall|k: int|
                    0 <= k < 4 * j ==> row[k] == word_byte(key_word(key@, (4 * (r as int) + k / 4) as nat), k % 4),
        {
            let wd = w[4 * r + j];
            row[4 * j] = (wd >> 24u32) as u8;
            row[4 * j + 1] = (wd >> 16u32) as u8;
            row[4 * j + 2] = (wd >> 8u32) as u8;
            row[4 * j + 3] = wd as u8;
        }
        assert(row@ =~= round_key(key@, r as int));
        rk[r] = row;
    }
    assert(round_keys_view(rk) =~= key_schedule(key@));
    rk
}

// ── Block encryption ───────────────────────────────────────────────────────

fn sub_bytes_exec(state: &mut [u8; 16])
    ensures
        final(state)@ == sub_bytes(old(state)@),
{
    let ghost s0 = state@;
    for i in 0..16
        invariant
            forall|k: int| 0 <= k < i ==> state[k] == sbox(s0[k]),
            forall|k: int| i <= k < 16 ==> state[k] == s0[k],
    {
        state[i] = SBOX[state[i] as usize];
    }
    assert(state@ =~= sub_bytes(s0));
}

fn add_round_key_exec(state: &mut [u8; 16], k: &[u8; 16])
    ensures
        final(state)@ == add_round_key(old(state)@, k@),
{
    let ghost s0 = state@;
    for i in 0..16
        invariant
            forall|j: int| 0 <= j < i ==> state[j] == s0[j] ^ k[j],
            forall|j: int| i <= j < 16 ==> state[j] == s0[j],
    {
        state[i] = state[i] ^ k[i];
    }
    assert(state@ =~= add_round_key(s0, k@));
}

/// ShiftRows on a state held column by column.
pub fn shift_rows(state: &mut [u8; 16])
    ensures
        final(state)@ == shift_rows_spec(old(state)@),
{
    let ghost s0 = state@;
    // Row 1: shift left by 1
    let tmp = state[1];
    state[1] = state[5];
    state[5] = state[9];
    state[9] = state[13];
    state[13] = tmp;
    // Row 2: shift left by 2
    let tmp0 = state[2];
    let tmp1 = state[6];
    state[2] = state[10];
    state[6] = state[14];
    state[10] = tmp0;
    state[14] = tmp1;
    // Row 3: shift left by 3
    let tmp = state[3];
    state[3] = state[15];
    state[15] = state[11];
    state[11] = state[7];
    state[7] = tmp;
    assert forall|i: int| 0 <= i < 16 implies #[trigger] state@[i] == s0[i % 4 + 4 * ((i / 4
        + i % 4) % 4)] by {
        if i == 0 {} else if i == 1 {} else if i == 2 {} else if i == 3 {} else if i == 4 {
        } else if i == 5 {} else if i == 6 {} else if i == 7 {} else if i == 8 {} else if i == 9 {
        } else if i == 10 {} else if i == 11 {} else if i == 12 {} else if i == 13 {
        } else if i == 14 {} else {}
    }
    assert(state@ =~= shift_rows_spec(s0));
}

/// MixColumns on a state held column by column.
pub fn mix_columns(state: &mut [u8; 16])
    ensures
        final(state)@ == mix_columns_spec(old(state)@),
{
    let ghost s0 = state@;
    for col in 0..4
        invariant
            forall|k: int| 0 <= k < 4 * col ==> state[k] == mix_byte(s0, k - k % 4, k % 4),
            forall|k: int| 4 * col <= k < 16 ==> state[k] == s0[k],
    {
        let c = col * 4;
        let s0b = state[c];
        let s1b = state[c + 1];
        let s2b = state[c + 2];
        let s3b = state[c + 3];
        state[c] = gf256_mul(s0b, 2) ^ gf256_mul(s1b, 3) ^ s2b ^ s3b;
        state[c + 1] = s0b ^ gf256_mul(s1b, 2) ^ gf256_mul(s2b, 3) ^ s3b;
        state[c + 2] = s0b ^ s1b ^ gf256_mul(s2b, 2) ^ gf256_mul(s3b, 3);
        state[c + 3] = gf256_mul(s0b, 3) ^ s1b ^ s2b ^ gf256_mul(s3b, 2);
        assert forall|k: int| 0 <= k < 4 * col + 4 implies state[k] == mix_byte(
            s0,
            k - k % 4,
            k % 4,
        ) by {
            if k >= 4 * col {
                assert(k - k % 4 == c);
            }
        }
    }
    assert(state@ =~= mix_columns_spec(s0));
}

/// Encrypts one block with AES-256 under the given round keys.
pub fn aes_encrypt_block(block: &[u8; 16], round_keys: &[[u8; 16]; 15]) -> (out: [u8; 16])
    ensures
        out@ == cipher(round_keys_view(*round_keys), block@),
{
    let ghost rks = round_keys_view(*round_keys);
    let mut state = *block;
    add_round_key_exec(&mut state, &round_keys[0]);
    for round in 1..14
        invariant
            rks == round_keys_view(*round_keys),
            state@ == cipher_state(rks, block@, (round - 1) as nat),
    {
        sub_bytes_exec(&mut state);
        shift_rows(&mut state);
        mix_columns(&mut state);
        add_round_key_exec(&mut state, &round_keys[round]);
    }
    sub_bytes_exec(&mut state);
    shift_rows(&mut state);
    add_round_key_exec(&mut state, &round_keys[14]);
    state
}

// ── CTR mode ──────────────────────────────────────────────────────────────

/// Xors `data` with the AES-256 counter-mode key stream for `key` and
/// `nonce`, from byte `offset` of the stream on: byte `i` of the data takes
/// key stream byte `offset + i`, so that data processed in pieces at their
/// offsets gets one counter stream.
pub fn aes256_ctr_process_from(key: &[u8; 32], nonce: &[u8; 12], offset: u64, data: &[u8]) -> (out:
    Vec<u8>)
    requires
        offset + data.len() <= u64::MAX,
    ensures
        out@ == ctr_from(key@, nonce@, offset as int, data@),
{
    let round_keys = key_expansion(key);
    let len = data.len();
    let mut result: Vec<u8> = Vec::with_capacity(len);
    let mut pos: usize = 0;
    while pos < len
        invariant
            len == data@.len(),
            offset + len <= u64::MAX,
            round_keys_view(round_keys) == key_schedule(key@),
            pos <= len,
            result@.len() == pos,
            forall|i: int|
                0 <= i < pos ==> result@[i] == data@[i] ^ keystream_byte(key@, nonce@, offset + i),
        decreases len - pos,
    {
        let a: u64 = offset + pos as u64;
        let blk: u64 = a / 16;
        let j0: u64 = a % 16;
        let counter: u32 = (blk % 0x1_0000_0000u64) as u32;
        let mut counter_block = [0u8; 16];
        for i in 0..12
            invariant
                forall|k: int| 0 <= k < i ==> counter_block[k] == nonce[k],
        {
            counter_block[i] = nonce[i];
        }
        counter_block[12] = (counter >> 24u32) as u8;
        counter_block[13] = (counter >> 16u32) as u8;
        counter_block[14] = (counter >> 8u32) as u8;
        counter_block[15] = counter as u8;
        assert(counter_block@ =~= counter_block_bytes(nonce@, blk as int));
        let keystream = aes_encrypt_block(&counter_block, &round_keys);
        let room = (16 - j0) as usize;
        let take = if len - pos < room { len - pos } else { room };
        for j in 0..take
            invariant
                len == data@.len(),
                pos + take <= len,
                j0 < 16,
                j0 + take <= 16,
                a == offset + pos,
                a == 16 * blk + j0,
                keystream@ == aes256_encrypt(key@, counter_block_bytes(nonce@, blk as int)),
                result@.len() == pos + j,
                forall|i: int|
                    0 <= i < pos + j ==> result@[i] == data@[i] ^ keystream_byte(key@, nonce@, offset + i),
        {
            proof {
                let i = a + j;
                assert(i / 16 == blk && i % 16 == j0 + j) by (nonlinear_arith)
                    requires
                        i == 16 * blk + j0 + j,
                        0 <= j0,
                        0 <= j,
                        j0 + j < 16,
                ;
            }
            result.push(data[pos + j] ^ keystream[j0 as usize + j]);
        }
        pos = pos + take;
    }
    result
}

/// Xors `data` with the AES-256 counter-mode key stream for `key` and
/// `nonce`; the counter starts at 0 and wraps modulo 2^32.
pub fn aes256_ctr_process(key: &[u8; 32], nonce: &[u8; 12], data: &[u8]) -> (out: Vec<u8>)
    ensures
        out@ == ctr(key@, nonce@, data@),
{
    let out = aes256_ctr_process_from(key, nonce, 0, data);
    assert(out@ =~= ctr(key@, nonce@, data@));
    out
}

/// Encrypts `plaintext` with AES-256 in counter mode.
pub fn aes256_ctr_encrypt(key: &[u8; 32], nonce: &[u8; 12], plaintext: &[u8]) -> (out: Vec<u8>)
    ensures
        out@ == ctr(key@, nonce@, plaintext@),
{
    aes256_ctr_process(key, nonce, plaintext)
}

/// Decrypts `ciphertext` with AES-256 in counter mode (the same key stream
/// as encryption).
pub fn aes256_ctr_decrypt(key: &[u8; 32], nonce: &[u8; 12], ciphertext: &[u8]) -> (out: Vec<u8>)
    ensures
        out@ == ctr(key@, nonce@, ciphertext@),
{
    aes256_ctr_process(key, nonce, ciphertext)
}

/// Decrypting in counter mode gives back what was encrypted under the same
/// key and nonce.
pub proof fn lemma_ctr_roundtrip(key: Seq<u8>, nonce: Seq<u8>, data: Seq<u8>)
    ensures
        ctr(key, nonce, ctr(key, nonce, data)) == data,
{
    let c = ctr(key, nonce, data);
    assert forall|i: int| 0 <= i < data.len() implies #[trigger] ctr(key, nonce, c)[i] == data[i] by {
        let d = data[i];
        let k = keystream_byte(key, nonce, i);
        assert((d ^ k) ^ k == d) by (bit_vector);
    }
    assert(ctr(key, nonce, c) =~= data);
}

/// Decrypting from an offset of the key stream gives back what was
/// encrypted from the same offset.
pub proof fn lemma_ctr_from_roundtrip(key: Seq<u8>, nonce: Seq<u8>, offset: int, data: Seq<u8>)
    ensures
        ctr_from(key, nonce, offset, ctr_from(key, nonce, offset, data)) == data,
{
    let c = ctr_from(key, nonce, offset, data);
    assert forall|i: int| 0 <= i < data.len() implies #[trigger] ctr_from(key, nonce, offset, c)[i]
        == data[i] by {
        let d = data[i];
        let k = keystream_byte(key, nonce, offset + i);
        assert((d ^ k) ^ k == d) by (bit_vector);
    }
    assert(ctr_from(key, nonce, offset, c) =~= data);
}

/// Counter mode keeps the length of the data.
pub proof fn lemma_ctr_length(key: Seq<u8>, nonce: Seq<u8>, data: Seq<u8>)
    ensures
        ctr(key, nonce, data).len() == data.len(),
{
}

/// The counter block of block `n` is the nonce followed by `n mod 2^32` as
/// four big-endian bytes: byte `12 + k` is digit `3 - k` of that number in
/// base 256.
pub proof fn lemma_counter_block_layout(nonce: Seq<u8>, n: int)
    requires
        nonce.len() == 12,
    ensures
        counter_block_bytes(nonce, n).len() == 16,
        counter_block_bytes(nonce, n).take(12) == nonce,
        counter_block_bytes(nonce, n)[12] as int == (n % 0x1_0000_0000) / 0x100_0000,
        counter_block_bytes(nonce, n)[13] as int == (n % 0x1_0000_0000) / 0x1_0000 % 0x100,
        counter_block_bytes(nonce, n)[14] as int == (n % 0x1_0000_0000) / 0x100 % 0x100,
        counter_block_bytes(nonce, n)[15] as int == (n % 0x1_0000_0000) % 0x100,
{
    let c = (n % 0x1_0000_0000) as u32;
    assert(c as int == n % 0x1_0000_0000);
    assert(((c >> 24u32) as u8) as u32 == c / 0x100_0000u32 && ((c >> 16u32) as u8) as u32 == c
        / 0x1_0000u32 % 0x100u32 && ((c >> 8u32) as u8) as u32 == c / 0x100u32 % 0x100u32 && (
    c as u8) as u32 == c % 0x100u32) by (bit_vector);
    assert(counter_block_bytes(nonce, n).take(12) =~= nonce);
}

/// Distinct block indices below 2^32 get distinct counter blocks, so no two
/// blocks of one message share key stream.
pub proof fn lemma_counter_blocks_distinct(nonce: Seq<u8>, n1: int, n2: int)
    requires
        nonce.len() == 12,
        0 <= n1 < 0x1_0000_0000,
        0 <= n2 < 0x1_0000_0000,
        n1 != n2,
    ensures
        counter_block_bytes(nonce, n1) != counter_block_bytes(nonce, n2),
{
    lemma_counter_block_layout(nonce, n1);
    lemma_counter_block_layout(nonce, n2);
    let b1 = counter_block_bytes(nonce, n1);
    let b2 = counter_block_bytes(nonce, n2);
    if b1 == b2 {
        assert(b1[12] == b2[12] && b1[13] == b2[13] && b1[14] == b2[14] && b1[15] == b2[15]);
        assert(n1 == n2) by (nonlinear_arith)
            requires
                0 <= n1 < 0x1_0000_0000,
                0 <= n2 < 0x1_0000_0000,
                n1 % 0x1_0000_0000 == n1,
                n2 % 0x1_0000_0000 == n2,
                n1 / 0x100_0000 == n2 / 0x100_0000,
                n1 / 0x1_0000 % 0x100 == n2 / 0x1_0000 % 0x100,
                n1 / 0x100 % 0x100 == n2 / 0x100 % 0x100,
                n1 % 0x100 == n2 % 0x100,
        ;
    }
}

// ── Verification tag ──────────────────────────────────────────────────────

/// The tag that confirms a password: the SHA-256 digest of the key followed
/// by the nonce.
pub fn compute_verification_tag(key: &[u8; 32], nonce: &[u8; 12]) -> (tag: [u8; 32])
    ensures
        tag@ == sha256(key@ + nonce@),
{
    let mut data: Vec<u8> = Vec::with_capacity(44);
    data.extend_from_slice(key);
    data.extend_from_slice(nonce);
    assert(data@ =~= key@ + nonce@);
    sha256_digest(data.as_slice())
}

// ── S-box algebra ─────────────────────────────────────────────────────────

/// Rotation of a byte to the left by `n` bits, `0 < n < 8`.
pub open spec fn rotl8(b: u8, n: u8) -> u8 {
    (b << n) | (b >> (8u8 - n))
}

/// The affine transformation of FIPS-197 (equation 5.1), applied to the
/// inverse of a byte to give its S-box value.
pub open spec fn sbox_affine(b: u8) -> u8 {
    b ^ rotl8(b, 1u8) ^ rotl8(b, 2u8) ^ rotl8(b, 3u8) ^ rotl8(b, 4u8) ^ 0x63u8
}

/// The S-box table written as a case split on its argument.
spec fn sbox_cases(x: u8) -> u8 {
    if x == 0u8 { 0x63u8 } else
    if x == 1u8 { 0x7cu8 } else
    if x == 2u8 { 0x77u8 } else
    if x == 3u8 { 0x7bu8 } else
    if x == 4u8 { 0xf2u8 } else
    if x == 5u8 { 0x6bu8 } else
    if x == 6u8 { 0x6fu8 } else
    if x == 7u8 { 0xc5u8 } else
    if x == 8u8 { 0x30u8 } else
    if x == 9u8 { 0x01u8 } else
    if x == 10u8 { 0x67u8 } else
    if x == 11u8 { 0x2bu8 } else
    if x == 12u8 { 0xfeu8 } else
    if x == 13u8 { 0xd7u8 } else
    if x == 14u8 { 0xabu8 } else
    if x == 15u8 { 0x76u8 } else
    if x == 16u8 { 0xcau8 } else
    if x == 17u8 { 0x82u8 } else
    if x == 18u8 { 0xc9u8 } else
    if x == 19u8 { 0x7du8 } else
    if x == 20u8 { 0xfau8 } else
    if x == 21u8 { 0x59u8 } else
    if x == 22u8 { 0x47u8 } else
    if x == 23u8 { 0xf0u8 } else
    if x == 24u8 { 0xadu8 } else
    if x == 25u8 { 0xd4u8 } else
    if x == 26u8 { 0xa2u8 } else
    if x == 27u8 { 0xafu8 } else
    if x == 28u8 { 0x9cu8 } else
    if x == 29u8 { 0xa4u8 } else
    if x == 30u8 { 0x72u8 } else
    if x == 31u8 { 0xc0u8 } else
    if x == 32u8 { 0xb7u8 } else
    if x == 33u8 { 0xfdu8 } else
    if x == 34u8 { 0x93u8 } else
    if x == 35u8 { 0x26u8 } else
    if x == 36u8 { 0x36u8 } else
    if x == 37u8 { 0x3fu8 } else
    if x == 38u8 { 0xf7u8 } else
    if x == 39u8 { 0xccu8 } else
    if x == 40u8 { 0x34u8 } else
    if x == 41u8 { 0xa5u8 } else
    if x == 42u8 { 0xe5u8 } else
    if x == 43u8 { 0xf1u8 } else
    if x == 44u8 { 0x71u8 } else
    if x == 45u8 { 0xd8u8 } else
    if x == 46u8 { 0x31u8 } else
    if x == 47u8 { 0x15u8 } else
    if x == 48u8 { 0x04u8 } else
    if x == 49u8 { 0xc7u8 } else
    if x == 50u8 { 0x23u8 } else
    if x == 51u8 { 0xc3u8 } else
    if x == 52u8 { 0x18u8 } else
    if x == 53u8 { 0x96u8 } else
    if x == 54u8 { 0x05u8 } else
    if x == 55u8 { 0x9au8 } else
    if x == 56u8 { 0x07u8 } else
    if x == 57u8 { 0x12u8 } else
    if x == 58u8 { 0x80u8 } else
    if x == 59u8 { 0xe2u8 } else
    if x == 60u8 { 0xebu8 } else
    if x == 61u8 { 0x27u8 } else
    if x == 62u8 { 0xb2u8 } else
    if x == 63u8 { 0x75u8 } else
    if x == 64u8 { 0x09u8 } else
    if x == 65u8 { 0x83u8 } else
    if x == 66u8 { 0x2cu8 } else
    if x == 67u8 { 0x1au8 } else
    if x == 68u8 { 0x1bu8 } else
    if x == 69u8 { 0x6eu8 } else
    if x == 70u8 { 0x5au8 } else
    if x == 71u8 { 0xa0u8 } else
    if x == 72u8 { 0x52u8 } else
    if x == 73u8 { 0x3bu8 } else
    if x == 74u8 { 0xd6u8 } else
    if x == 75u8 { 0xb3u8 } else
    if x == 76u8 { 0x29u8 } else
    if x == 77u8 { 0xe3u8 } else
    if x == 78u8 { 0x2fu8 } else
    if x == 79u8 { 0x84u8 } else
    if x == 80u8 { 0x53u8 } else
    if x == 81u8 { 0xd1u8 } else
    if x == 82u8 { 0x00u8 } else
    if x == 83u8 { 0xedu8 } else
    if x == 84u8 { 0x20u8 } else
    if x == 85u8 { 0xfcu8 } else
    if x == 86u8 { 0xb1u8 } else
    if x == 87u8 { 0x5bu8 } else
    if x == 88u8 { 0x6au8 } else
    if x == 89u8 { 0xcbu8 } else
    if x == 90u8 { 0xbeu8 } else
    if x == 91u8 { 0x39u8 } else
    if x == 92u8 { 0x4au8 } else
    if x == 93u8 { 0x4cu8 } else
    if x == 94u8 { 0x58u8 } else
    if x == 95u8 { 0xcfu8 } else
    if x == 96u8 { 0xd0u8 } else
    if x == 97u8 { 0xefu8 } else
    if x == 98u8 { 0xaau8 } else
    if x == 99u8 { 0xfbu8 } else
    if x == 100u8 { 0x43u8 } else
    if x == 101u8 { 0x4du8 } else
    if x == 102u8 { 0x33u8 } else
    if x == 103u8 { 0x85u8 } else
    if x == 104u8 { 0x45u8 } else
    if x == 105u8 { 0xf9u8 } else
    if x == 106u8 { 0x02u8 } else
    if x == 107u8 { 0x7fu8 } else
    if x == 108u8 { 0x50u8 } else
    if x == 109u8 { 0x3cu8 } else
    if x == 110u8 { 0x9fu8 } else
    if x == 111u8 { 0xa8u8 } else
    if x == 112u8 { 0x51u8 } else
    if x == 113u8 { 0xa3u8 } else
    if x == 114u8 { 0x40u8 } else
    if x == 115u8 { 0x8fu8 } else
    if x == 116u8 { 0x92u8 } else
    if x == 117u8 { 0x9du8 } else
    if x == 118u8 { 0x38u8 } else
    if x == 119u8 { 0xf5u8 } else
    if x == 120u8 { 0xbcu8 } else
    if x == 121u8 { 0xb6u8 } else
    if x == 122u8 { 0xdau8 } else
    if x == 123u8 { 0x21u8 } else
    if x == 124u8 { 0x10u8 } else
    if x == 125u8 { 0xffu8 } else
    if x == 126u8 { 0xf3u8 } else
    if x == 127u8 { 0xd2u8 } else
    if x == 128u8 { 0xcdu8 } else
    if x == 129u8 { 0x0cu8 } else
    if x == 130u8 { 0x13u8 } else
    if x == 131u8 { 0xecu8 } else
    if x == 132u8 { 0x5fu8 } else
    if x == 133u8 { 0x97u8 } else
    if x == 134u8 { 0x44u8 } else
    if x == 135u8 { 0x17u8 } else
    if x == 136u8 { 0xc4u8 } else
    if x == 137u8 { 0xa7u8 } else
    if x == 138u8 { 0x7eu8 } else
    if x == 139u8 { 0x3du8 } else
    if x == 140u8 { 0x64u8 } else
    if x == 141u8 { 0x5du8 } else
    if x == 142u8 { 0x19u8 } else
    if x == 143u8 { 0x73u8 } else
    if x == 144u8 { 0x60u8 } else
    if x == 145u8 { 0x81u8 } else
    if x == 146u8 { 0x4fu8 } else
    if x == 147u8 { 0xdcu8 } else
    if x == 148u8 { 0x22u8 } else
    if x == 149u8 { 0x2au8 } else
    if x == 150u8 { 0x90u8 } else
    if x == 151u8 { 0x88u8 } else
    if x == 152u8 { 0x46u8 } else
    if x == 153u8 { 0xeeu8 } else
    if x == 154u8 { 0xb8u8 } else
    if x == 155u8 { 0x14u8 } else
    if x == 156u8 { 0xdeu8 } else
    if x == 157u8 { 0x5eu8 } else
    if x == 158u8 { 0x0bu8 } else
    if x == 159u8 { 0xdbu8 } else
    if x == 160u8 { 0xe0u8 } else
    if x == 161u8 { 0x32u8 } else
    if x == 162u8 { 0x3au8 } else
    if x == 163u8 { 0x0au8 } else
    if x == 164u8 { 0x49u8 } else
    if x == 165u8 { 0x06u8 } else
    if x == 166u8 { 0x24u8 } else
    if x == 167u8 { 0x5cu8 } else
    if x == 168u8 { 0xc2u8 } else
    if x == 169u8 { 0xd3u8 } else
    if x == 170u8 { 0xacu8 } else
    if x == 171u8 { 0x62u8 } else
    if x == 172u8 { 0x91u8 } else
    if x == 173u8 { 0x95u8 } else
    if x == 174u8 { 0xe4u8 } else
    if x == 175u8 { 0x79u8 } else
    if x == 176u8 { 0xe7u8 } else
    if x == 177u8 { 0xc8u8 } else
    if x == 178u8 { 0x37u8 } else
    if x == 179u8 { 0x6du8 } else
    if x == 180u8 { 0x8du8 } else
    if x == 181u8 { 0xd5u8 } else
    if x == 182u8 { 0x4eu8 } else
    if x == 183u8 { 0xa9u8 } else
    if x == 184u8 { 0x6cu8 } else
    if x == 185u8 { 0x56u8 } else
    if x == 186u8 { 0xf4u8 } else
    if x == 187u8 { 0xeau8 } else
    if x == 188u8 { 0x65u8 } else
    if x == 189u8 { 0x7au8 } else
    if x == 190u8 { 0xaeu8 } else
    if x == 191u8 { 0x08u8 } else
    if x == 192u8 { 0xbau8 } else
    if x == 193u8 { 0x78u8 } else
    if x == 194u8 { 0x25u8 } else
    if x == 195u8 { 0x2eu8 } else
    if x == 196u8 { 0x1cu8 } else
    if x == 197u8 { 0xa6u8 } else
    if x == 198u8 { 0xb4u8 } else
    if x == 199u8 { 0xc6u8 } else
    if x == 200u8 { 0xe8u8 } else
    if x == 201u8 { 0xddu8 } else
    if x == 202u8 { 0x74u8 } else
    if x == 203u8 { 0x1fu8 } else
    if x == 204u8 { 0x4bu8 } else
    if x == 205u8 { 0xbdu8 } else
    if x == 206u8 { 0x8bu8 } else
    if x == 207u8 { 0x8au8 } else
    if x == 208u8 { 0x70u8 } else
    if x == 209u8 { 0x3eu8 } else
    if x == 210u8 { 0xb5u8 } else
    if x == 211u8 { 0x66u8 } else
    if x == 212u8 { 0x48u8 } else
    if x == 213u8 { 0x03u8 } else
    if x == 214u8 { 0xf6u8 } else
    if x == 215u8 { 0x0eu8 } else
    if x == 216u8 { 0x61u8 } else
    if x == 217u8 { 0x35u8 } else
    if x == 218u8 { 0x57u8 } else
    if x == 219u8 { 0xb9u8 } else
    if x == 220u8 { 0x86u8 } else
    if x == 221u8 { 0xc1u8 } else
    if x == 222u8 { 0x1du8 } else
    if x == 223u8 { 0x9eu8 } else
    if x == 224u8 { 0xe1u8 } else
    if x == 225u8 { 0xf8u8 } else
    if x == 226u8 { 0x98u8 } else
    if x == 227u8 { 0x11u8 } else
    if x == 228u8 { 0x69u8 } else
    if x == 229u8 { 0xd9u8 } else
    if x == 230u8 { 0x8eu8 } else
    if x == 231u8 { 0x94u8 } else
    if x == 232u8 { 0x9bu8 } else
    if x == 233u8 { 0x1eu8 } else
    if x == 234u8 { 0x87u8 } else
    if x == 235u8 { 0xe9u8 } else
    if x == 236u8 { 0xceu8 } else
    if x == 237u8 { 0x55u8 } else
    if x == 238u8 { 0x28u8 } else
    if x == 239u8 { 0xdfu8 } else
    if x == 240u8 { 0x8cu8 } else
    if x == 241u8 { 0xa1u8 } else
    if x == 242u8 { 0x89u8 } else
    if x == 243u8 { 0x0du8 } else
    if x == 244u8 { 0xbfu8 } else
    if x == 245u8 { 0xe6u8 } else
    if x == 246u8 { 0x42u8 } else
    if x == 247u8 { 0x68u8 } else
    if x == 248u8 { 0x41u8 } else
    if x == 249u8 { 0x99u8 } else
    if x == 250u8 { 0x2du8 } else
    if x == 251u8 { 0x0fu8 } else
    if x == 252u8 { 0xb0u8 } else
    if x == 253u8 { 0x54u8 } else
    if x == 254u8 { 0xbbu8 } else
    { 0x16u8 }
}

/// The S-box table is the algebraic S-box: for every byte `x`, `SBOX[x]` is
/// the affine transformation of the multiplicative inverse of `x` in GF(2^8)
/// (with 0 taken to 0).
#[verifier::rlimit(100)]
pub proof fn lemma_sbox_is_affine_of_inverse(x: u8, inv: u8)
    requires
        (x == 0 && inv == 0) || (x != 0 && gf_mul(x, inv) == 1),
    ensures
        SBOX[x as int] == sbox_affine(inv),
{
    assert(sbox_cases(x) == sbox_affine(inv)) by (bit_vector)
        requires
            (x == 0u8 && inv == 0u8) || (x != 0u8 && gf_mul(x, inv) == 1u8),
    ;
    assert(SBOX[x as int] == sbox_cases(x));
}

} // verus!
