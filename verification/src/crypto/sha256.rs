//! SHA-256 (FIPS 180-4).

use vstd::prelude::*;

use super::words::{be32, be32_exec, word_byte};

verus! {

/// The SHA-256 round constants (FIPS 180-4, section 4.2.2).
pub const K: [u32; 64] = [
    0x428a2f98, 0x71374491, 0xb5c0fbcf, 0xe9b5dba5, 0x3956c25b, 0x59f111f1, 0x923f82a4, 0xab1c5ed5,
    0xd807aa98, 0x12835b01, 0x243185be, 0x550c7dc3, 0x72be5d74, 0x80deb1fe, 0x9bdc06a7, 0xc19bf174,
    0xe49b69c1, 0xefbe4786, 0x0fc19dc6, 0x240ca1cc, 0x2de92c6f, 0x4a7484aa, 0x5cb0a9dc, 0x76f988da,
    0x983e5152, 0xa831c66d, 0xb00327c8, 0xbf597fc7, 0xc6e00bf3, 0xd5a79147, 0x06ca6351, 0x14292967,
    0x27b70a85, 0x2e1b2138, 0x4d2c6dfc, 0x53380d13, 0x650a7354, 0x766a0abb, 0x81c2c92e, 0x92722c85,
    0xa2bfe8a1, 0xa81a664b, 0xc24b8b70, 0xc76c51a3, 0xd192e819, 0xd6990624, 0xf40e3585, 0x106aa070,
    0x19a4c116, 0x1e376c08, 0x2748774c, 0x34b0bcb5, 0x391c0cb3, 0x4ed8aa4a, 0x5b9cca4f, 0x682e6ff3,
    0x748f82ee, 0x78a5636f, 0x84c87814, 0x8cc70208, 0x90befffa, 0xa4506ceb, 0xbef9a3f7, 0xc67178f2,
];

/// The initial hash value (FIPS 180-4, section 5.3.3).
pub const H0: [u32; 8] = [
    0x6a09e667, 0xbb67ae85, 0x3c6ef372, 0xa54ff53a, 0x510e527f, 0x9b05688c, 0x1f83d9ab, 0x5be0cd19,
];

/// Rotation of a word to the right by `n` bits, `0 < n < 32`.
pub open spec fn rotr(x: u32, n: u32) -> u32 {
    (x >> n) | (x << ((32 - n) as u32))
}

/// The function Σ0 of FIPS 180-4 (4.4).
pub open spec fn big_sigma0(x: u32) -> u32 {
    rotr(x, 2) ^ rotr(x, 13) ^ rotr(x, 22)
}

/// The function Σ1 of FIPS 180-4 (4.5).
pub open spec fn big_sigma1(x: u32) -> u32 {
    rotr(x, 6) ^ rotr(x, 11) ^ rotr(x, 25)
}

/// The function σ0 of FIPS 180-4 (4.6).
pub open spec fn small_sigma0(x: u32) -> u32 {
    rotr(x, 7) ^ rotr(x, 18) ^ (x >> 3u32)
}

/// The function σ1 of FIPS 180-4 (4.7).
pub open spec fn small_sigma1(x: u32) -> u32 {
    rotr(x, 17) ^ rotr(x, 19) ^ (x >> 10u32)
}

/// The function Ch of FIPS 180-4 (4.2).
pub open spec fn ch(x: u32, y: u32, z: u32) -> u32 {
    (x & y) ^ (!x & z)
}

/// The function Maj of FIPS 180-4 (4.3).
pub open spec fn maj(x: u32, y: u32, z: u32) -> u32 {
    (x & y) ^ (x & z) ^ (y & z)
}

/// Word `t` of the message schedule of a 64-byte block (FIPS 180-4, 6.2.2).
pub open spec fn schedule(block: Seq<u8>, t: nat) -> u32
    decreases t,
{
    if t < 16 {
        let k = 4 * t as int;
        be32(block[k], block[k + 1], block[k + 2], block[k + 3])
    } else {
        small_sigma1(schedule(block, (t - 2) as nat)).wrapping_add(
            schedule(block, (t - 7) as nat),
        ).wrapping_add(small_sigma0(schedule(block, (t - 15) as nat))).wrapping_add(
            schedule(block, (t - 16) as nat),
        )
    }
}

/// One round of the compression function on the working variables
/// `a, b, c, d, e, f, g, h`.
pub open spec fn round(v: Seq<u32>, k: u32, w: u32) -> Seq<u32> {
    let t1 = v[7].wrapping_add(big_sigma1(v[4])).wrapping_add(ch(v[4], v[5], v[6])).wrapping_add(
        k,
    ).wrapping_add(w);
    let t2 = big_sigma0(v[0]).wrapping_add(maj(v[0], v[1], v[2]));
    seq![t1.wrapping_add(t2), v[0], v[1], v[2], v[3].wrapping_add(t1), v[4], v[5], v[6]]
}

/// The working variables after the first `t` rounds on a block.
pub open spec fn rounds(h: Seq<u32>, block: Seq<u8>, t: nat) -> Seq<u32>
    decreases t,
{
    if t == 0 {
        h
    } else {
        round(rounds(h, block, (t - 1) as nat), K[t - 1], schedule(block, (t - 1) as nat))
    }
}

/// The compression function: the hash value after one 64-byte block.
pub open spec fn compress(h: Seq<u32>, block: Seq<u8>) -> Seq<u32> {
    let v = rounds(h, block, 64);
    Seq::new(8, |i: int| h[i].wrapping_add(v[i]))
}

/// The hash value after the whole 64-byte blocks of `m`, from `h`.
pub open spec fn hash_blocks(h: Seq<u32>, m: Seq<u8>) -> Seq<u32>
    decreases m.len(),
{
    if m.len() < 64 {
        h
    } else {
        hash_blocks(compress(h, m.take(64)), m.skip(64))
    }
}

/// The number of zero bytes of padding after the 0x80 byte for a message of
/// `n` bytes.
pub open spec fn zero_pad_len(n: int) -> int {
    (64 - (n + 9) % 64) % 64
}

/// A 64-bit value as 8 big-endian bytes.
pub open spec fn be64_bytes(x: u64) -> Seq<u8> {
    seq![
        (x >> 56u64) as u8,
        (x >> 48u64) as u8,
        (x >> 40u64) as u8,
        (x >> 32u64) as u8,
        (x >> 24u64) as u8,
        (x >> 16u64) as u8,
        (x >> 8u64) as u8,
        x as u8,
    ]
}

/// The padded message (FIPS 180-4, 5.1.1): the message, a 0x80 byte, zero
/// bytes up to 8 bytes short of a multiple of 64, and the length in bits
/// (modulo 2^64) as a big-endian 64-bit number.
pub open spec fn pad(m: Seq<u8>) -> Seq<u8> {
    m + seq![0x80u8] + Seq::new(zero_pad_len(m.len() as int) as nat, |i: int| 0u8) + be64_bytes(
        ((m.len() * 8) % 0x1_0000_0000_0000_0000) as u64,
    )
}

/// The 32 bytes of a hash value, each word big-endian.
pub open spec fn digest_bytes(h: Seq<u32>) -> Seq<u8> {
    Seq::new(32, |i: int| word_byte(h[i / 4], i % 4))
}

/// The SHA-256 digest of a message.
pub open spec fn sha256(m: Seq<u8>) -> Seq<u8> {
    digest_bytes(hash_blocks(H0@, pad(m)))
}

fn rotr_exec(x: u32, n: u32) -> (r: u32)
    requires
        0 < n < 32,
    ensures
        r == rotr(x, n),
{
    (x >> n) | (x << (32 - n))
}

/// The compression function applied to the 64 bytes of `data` at `off`.
pub(crate) fn compress_exec(h: &[u32; 8], data: &[u8], off: usize) -> (r: [u32; 8])
    requires
        off + 64 <= data@.len(),
    ensures
        r@ == compress(h@, data@.subrange(off as int, off + 64)),
{
    let ghost block = data@.subrange(off as int, off + 64);
    let mut w = [0u32; 64];
    for t in 0..16
        invariant
            off + 64 <= data.len(),
            block == data@.subrange(off as int, off + 64),
            forall|j: int| 0 <= j < t ==> w[j] == schedule(block, j as nat),
    {
        let k = off + 4 * t;
        w[t] = be32_exec(data[k], data[k + 1], data[k + 2], data[k + 3]);
    }
    for t in 16..64
        invariant
            forall|j: int| 0 <= j < t ==> w[j] == schedule(block, j as nat),
    {
        let x2 = w[t - 2];
        let x15 = w[t - 15];
        let s1 = rotr_exec(x2, 17) ^ rotr_exec(x2, 19) ^ (x2 >> 10u32);
        let s0 = rotr_exec(x15, 7) ^ rotr_exec(x15, 18) ^ (x15 >> 3u32);
        w[t] = s1.wrapping_add(w[t - 7]).wrapping_add(s0).wrapping_add(w[t - 16]);
    }
    let mut a = h[0];
    let mut b = h[1];
    let mut c = h[2];
    let mut d = h[3];
    let mut e = h[4];
    let mut f = h[5];
    let mut g = h[6];
    let mut hh = h[7];
    assert(seq![a, b, c, d, e, f, g, hh] =~= rounds(h@, block, 0));
    for t in 0..64
        invariant
            forall|j: int| 0 <= j < 64 ==> w[j] == schedule(block, j as nat),
            seq![a, b, c, d, e, f, g, hh] == rounds(h@, block, t as nat),
    {
        let s1 = rotr_exec(e, 6) ^ rotr_exec(e, 11) ^ rotr_exec(e, 25);
        let chv = (e & f) ^ (!e & g);
        let t1 = hh.wrapping_add(s1).wrapping_add(chv).wrapping_add(K[t]).wrapping_add(w[t]);
        let s0 = rotr_exec(a, 2) ^ rotr_exec(a, 13) ^ rotr_exec(a, 22);
        let mj = (a & b) ^ (a & c) ^ (b & c);
        let t2 = s0.wrapping_add(mj);
        hh = g;
        g = f;
        f = e;
        e = d.wrapping_add(t1);
        d = c;
        c = b;
        b = a;
        a = t1.wrapping_add(t2);
        assert(seq![a, b, c, d, e, f, g, hh] =~= rounds(h@, block, (t + 1) as nat));
    }
    let r = [
        h[0].wrapping_add(a),
        h[1].wrapping_add(b),
        h[2].wrapping_add(c),
        h[3].wrapping_add(d),
        h[4].wrapping_add(e),
        h[5].wrapping_add(f),
        h[6].wrapping_add(g),
        h[7].wrapping_add(hh),
    ];
    assert(r@ =~= compress(h@, block));
    r
}

/// Hashing the blocks of `a + b`, with `a` a whole number of blocks, hashes
/// the blocks of `a` and then those of `b`.
pub proof fn lemma_hash_blocks_append(h: Seq<u32>, a: Seq<u8>, b: Seq<u8>)
    requires
        a.len() % 64 == 0,
    ensures
        hash_blocks(h, a + b) == hash_blocks(hash_blocks(h, a), b),
    decreases a.len(),
{
    if a.len() == 0 {
        assert(a + b =~= b);
    } else {
        let ab = a + b;
        assert(ab.take(64) =~= a.take(64));
        assert(ab.skip(64) =~= a.skip(64) + b);
        lemma_hash_blocks_append(compress(h, a.take(64)), a.skip(64), b);
    }
}

/// Hashing exactly one block is one application of the compression
/// function.
pub proof fn lemma_hash_one_block(h: Seq<u32>, blk: Seq<u8>)
    requires
        blk.len() == 64,
    ensures
        hash_blocks(h, blk) == compress(h, blk),
{
    assert(blk.take(64) =~= blk);
    let rest = blk.skip(64);
    assert(rest.len() == 0);
    assert(hash_blocks(compress(h, blk), rest) == compress(h, blk));
}

/// The bytes that end a padded message whose last `rem < 64` message bytes
/// are `last`: those bytes, 0x80, the zero bytes, and the bit length.
pub open spec fn pad_tail(last: Seq<u8>, zeros: int, bits: u64) -> Seq<u8> {
    last + seq![0x80u8] + Seq::new(zeros as nat, |i: int| 0u8) + be64_bytes(bits)
}

/// The padded message splits into the whole blocks of the message and the
/// final one or two blocks.
proof fn lemma_pad_split(m: Seq<u8>, off: int)
    requires
        0 <= off <= m.len(),
        off % 64 == 0,
        m.len() - off < 64,
    ensures
        pad(m) == m.take(off) + pad_tail(
            m.skip(off),
            if m.len() - off < 56 { 55 - (m.len() - off) } else { 119 - (m.len() - off) },
            ((m.len() * 8) % 0x1_0000_0000_0000_0000) as u64,
        ),
{
    let rem = m.len() - off;
    let z = zero_pad_len(m.len() as int);
    assert(z == if rem < 56 { 55 - rem } else { 119 - rem }) by (nonlinear_arith)
        requires
            z == (64 - (m.len() + 9) % 64) % 64,
            rem == m.len() - off,
            off % 64 == 0,
            0 <= rem < 64,
    ;
    assert(m =~= m.take(off) + m.skip(off));
    assert(pad(m) =~= m.take(off) + pad_tail(
        m.skip(off),
        z,
        ((m.len() * 8) % 0x1_0000_0000_0000_0000) as u64,
    ));
}

/// Lays out the final one or two blocks of the padded message in a buffer;
/// returns the buffer and the number of bytes used (64 or 128).
fn final_blocks(data: &[u8], off: usize, bits: u64) -> (r: ([u8; 128], usize))
    requires
        off <= data@.len(),
        data@.len() - off < 64,
    ensures
        r.1 == if data@.len() - off < 56 { 64usize } else { 128usize },
        r.0@.take(r.1 as int) == pad_tail(
            data@.skip(off as int),
            if data@.len() - off < 56 { 55 - (data@.len() - off) } else { 119 - (data@.len() - off) },
            bits,
        ),
{
    let n = data.len();
    let rem = n - off;
    let total: usize = if rem < 56 { 64 } else { 128 };
    let mut buf = [0u8; 128];
    for i in 0..rem
        invariant
            n == data@.len(),
            rem == n - off,
            rem < 64,
            forall|k: int| 0 <= k < i ==> buf[k] == data@[off + k],
            forall|k: int| i <= k < 128 ==> buf[k] == 0,
    {
        buf[i] = data[off + i];
    }
    buf[rem] = 0x80;
    buf[total - 8] = (bits >> 56u64) as u8;
    buf[total - 7] = (bits >> 48u64) as u8;
    buf[total - 6] = (bits >> 40u64) as u8;
    buf[total - 5] = (bits >> 32u64) as u8;
    buf[total - 4] = (bits >> 24u64) as u8;
    buf[total - 3] = (bits >> 16u64) as u8;
    buf[total - 2] = (bits >> 8u64) as u8;
    buf[total - 1] = bits as u8;
    let ghost z: int = if rem < 56 { 55 - rem } else { 119 - rem };
    assert(buf@.take(total as int) =~= pad_tail(data@.skip(off as int), z, bits));
    (buf, total)
}

/// The 32 bytes of a hash value.
fn digest_out(st: &[u32; 8]) -> (out: [u8; 32])
    ensures
        out@ == digest_bytes(st@),
{
    let mut out = [0u8; 32];
    for i in 0..8
        invariant
            forall|k: int| 0 <= k < 4 * i ==> out[k] == word_byte(st[k / 4], k % 4),
    {
        let wd = st[i];
        out[4 * i] = (wd >> 24u32) as u8;
        out[4 * i + 1] = (wd >> 16u32) as u8;
        out[4 * i + 2] = (wd >> 8u32) as u8;
        out[4 * i + 3] = wd as u8;
    }
    assert(out@ =~= digest_bytes(st@));
    out
}

/// Finishes a SHA-256 computation: `h` is the hash value after the whole
/// blocks of `prefix`, and `data` follows it in the message.
pub(crate) fn sha256_finish(h: &[u32; 8], done: usize, Ghost(prefix): Ghost<Seq<u8>>, data: &[u8]) -> (out:
    [u8; 32])
    requires
        prefix.len() == done,
        done % 64 == 0,
        done + data.len() <= usize::MAX,
        h@ == hash_blocks(H0@, prefix),
    ensures
        out@ == sha256(prefix + data@),
{
    let n = data.len();
    let mut st = *h;
    let mut off: usize = 0;
    while n - off >= 64
        invariant
            n == data@.len(),
            prefix.len() == done,
            done % 64 == 0,
            off <= n,
            off % 64 == 0,
            st@ == hash_blocks(H0@, prefix + data@.take(off as int)),
        decreases n - off,
    {
        proof {
            let blk = data@.subrange(off as int, off + 64);
            let head = prefix + data@.take(off as int);
            assert(head.len() % 64 == 0) by (nonlinear_arith)
                requires head.len() == done + off, done % 64 == 0, off % 64 == 0;
            assert(prefix + data@.take(off + 64) =~= head + blk);
            lemma_hash_blocks_append(H0@, head, blk);
            lemma_hash_one_block(st@, blk);
        }
        st = compress_exec(&st, data, off);
        off = off + 64;
    }
    let bits: u64 = ((done + n) as u64).wrapping_mul(8);
    let (buf, total) = final_blocks(data, off, bits);
    proof {
        let m = prefix + data@;
        let head = prefix + data@.take(off as int);
        let o = done + off;
        assert(o % 64 == 0) by (nonlinear_arith)
            requires o == done + off, done % 64 == 0, off % 64 == 0;
        assert(m.take(o) =~= head);
        assert(m.skip(o) =~= data@.skip(off as int));
        lemma_pad_split(m, o);
        lemma_hash_blocks_append(H0@, head, buf@.take(total as int));
        if total == 64 {
            lemma_hash_one_block(st@, buf@.take(64));
            assert(buf@.take(64) =~= buf@.subrange(0, 64));
        } else {
            let b1 = buf@.subrange(0, 64);
            let b2 = buf@.subrange(64, 128);
            assert(buf@.take(128) =~= b1 + b2);
            lemma_hash_blocks_append(st@, b1, b2);
            lemma_hash_one_block(st@, b1);
            lemma_hash_one_block(compress(st@, b1), b2);
        }
    }
    st = compress_exec(&st, &buf, 0);
    if total == 128 {
        st = compress_exec(&st, &buf, 64);
    }
    digest_out(&st)
}

/// The SHA-256 digest of `data`.
pub fn sha256_digest(data: &[u8]) -> (out: [u8; 32])
    ensures
        out@ == sha256(data@),
{
    let ghost empty: Seq<u8> = Seq::empty();
    proof {
        assert(hash_blocks(H0@, empty) == H0@);
        assert(empty + data@ =~= data@);
    }
    sha256_finish(&H0, 0, Ghost(empty), data)
}

} // verus!
