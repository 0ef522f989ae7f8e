//! Arithmetic in GF(2^8) modulo the AES polynomial x^8 + x^4 + x^3 + x + 1.

use vstd::prelude::*;

verus! {

/// Multiplication by `x` in GF(2^8): a left shift, reduced by 0x1b when the
/// top bit falls off.
pub open spec fn xtime(a: u8) -> u8 {
    if a & 0x80u8 != 0 {
        (a << 1u8) ^ 0x1bu8
    } else {
        a << 1u8
    }
}

/// The product of `a` and `b` in GF(2^8): the sum (xor) of `x^i * a` over the
/// bits `i` that are set in `b`.
pub open spec fn gf_mul(a: u8, b: u8) -> u8 {
    let a1 = xtime(a);
    let a2 = xtime(a1);
    let a3 = xtime(a2);
    let a4 = xtime(a3);
    let a5 = xtime(a4);
    let a6 = xtime(a5);
    let a7 = xtime(a6);
    (if b & 0x01u8 != 0 { a } else { 0u8 }) ^ (if b & 0x02u8 != 0 { a1 } else { 0u8 }) ^ (if b
        & 0x04u8 != 0 {
        a2
    } else {
        0u8
    }) ^ (if b & 0x08u8 != 0 { a3 } else { 0u8 }) ^ (if b & 0x10u8 != 0 { a4 } else { 0u8 }) ^ (
    if b & 0x20u8 != 0 {
        a5
    } else {
        0u8
    }) ^ (if b & 0x40u8 != 0 { a6 } else { 0u8 }) ^ (if b & 0x80u8 != 0 { a7 } else { 0u8 })
}

fn xtime_exec(a: u8) -> (r: u8)
    ensures
        r == xtime(a),
{
    if a & 0x80 != 0 {
        (a << 1u8) ^ 0x1b
    } else {
        a << 1u8
    }
}

/// Multiplies two elements of GF(2^8).
pub fn gf256_mul(a: u8, b: u8) -> (r: u8)
    ensures
        r == gf_mul(a, b),
{
    let a1 = xtime_exec(a);
    let a2 = xtime_exec(a1);
    let a3 = xtime_exec(a2);
    let a4 = xtime_exec(a3);
    let a5 = xtime_exec(a4);
    let a6 = xtime_exec(a5);
    let a7 = xtime_exec(a6);
    (if b & 0x01 != 0 { a } else { 0 }) ^ (if b & 0x02 != 0 { a1 } else { 0 }) ^ (if b & 0x04 != 0 {
        a2
    } else {
        0
    }) ^ (if b & 0x08 != 0 { a3 } else { 0 }) ^ (if b & 0x10 != 0 { a4 } else { 0 }) ^ (if b & 0x20
        != 0 {
        a5
    } else {
        0
    }) ^ (if b & 0x40 != 0 { a6 } else { 0 }) ^ (if b & 0x80 != 0 { a7 } else { 0 })
}

/// The multiplicative inverse in GF(2^8), with 0 mapped to 0: computed as
/// `a^254` by repeated squaring, since `a^255 == 1` for every `a != 0`.
pub fn gf256_inv(a: u8) -> (r: u8)
    ensures
        a == 0 ==> r == 0,
        a != 0 ==> gf_mul(a, r) == 1,
{
    if a == 0 {
        return 0;
    }
    let a2 = gf256_mul(a, a);
    let a4 = gf256_mul(a2, a2);
    let a8 = gf256_mul(a4, a4);
    let a16 = gf256_mul(a8, a8);
    let a32 = gf256_mul(a16, a16);
    let a64 = gf256_mul(a32, a32);
    let a128 = gf256_mul(a64, a64);
    let r6 = gf256_mul(a2, a4);
    let r14 = gf256_mul(r6, a8);
    let r30 = gf256_mul(r14, a16);
    let r62 = gf256_mul(r30, a32);
    let r126 = gf256_mul(r62, a64);
    let r254 = gf256_mul(r126, a128);
    assert(gf_mul(a, r254) == 1u8) by (bit_vector)
        requires
            a != 0u8,
            a2 == gf_mul(a, a),
            a4 == gf_mul(a2, a2),
            a8 == gf_mul(a4, a4),
            a16 == gf_mul(a8, a8),
            a32 == gf_mul(a16, a16),
            a64 == gf_mul(a32, a32),
            a128 == gf_mul(a64, a64),
            r6 == gf_mul(a2, a4),
            r14 == gf_mul(r6, a8),
            r30 == gf_mul(r14, a16),
            r62 == gf_mul(r30, a32),
            r126 == gf_mul(r62, a64),
            r254 == gf_mul(r126, a128),
    ;
    r254
}

/// 1 is the unit of multiplication and 0 absorbs it.
pub proof fn lemma_gf_mul_unit_zero(a: u8)
    ensures
        gf_mul(a, 1) == a,
        gf_mul(a, 0) == 0,
        gf_mul(1, a) == a,
        gf_mul(0, a) == 0,
{
    assert(gf_mul(a, 1u8) == a && gf_mul(a, 0u8) == 0u8 && gf_mul(1u8, a) == a && gf_mul(0u8, a)
        == 0u8) by (bit_vector);
}

/// Multiplication distributes over addition (xor).
pub proof fn lemma_gf_mul_distributive(a: u8, b: u8, c: u8)
    ensures
        gf_mul(a, b ^ c) == gf_mul(a, b) ^ gf_mul(a, c),
{
    assert(gf_mul(a, b ^ c) == gf_mul(a, b) ^ gf_mul(a, c)) by (bit_vector);
}

/// The sum (xor) of `p_i` over the bits `i` that are set in `c`.
spec fn select_sum(c: u8, p0: u8, p1: u8, p2: u8, p3: u8, p4: u8, p5: u8, p6: u8, p7: u8) -> u8 {
    (if c & 0x01u8 != 0 { p0 } else { 0u8 }) ^ (if c & 0x02u8 != 0 { p1 } else { 0u8 }) ^ (if c
        & 0x04u8 != 0 {
        p2
    } else {
        0u8
    }) ^ (if c & 0x08u8 != 0 { p3 } else { 0u8 }) ^ (if c & 0x10u8 != 0 { p4 } else { 0u8 }) ^ (
    if c & 0x20u8 != 0 {
        p5
    } else {
        0u8
    }) ^ (if c & 0x40u8 != 0 { p6 } else { 0u8 }) ^ (if c & 0x80u8 != 0 { p7 } else { 0u8 })
}

/// `xtime` is linear.
proof fn lemma_xtime_linear(u: u8, v: u8)
    ensures
        xtime(u ^ v) == xtime(u) ^ xtime(v),
{
    assert(xtime(u ^ v) == xtime(u) ^ xtime(v)) by (bit_vector);
}

/// A selected sum of xors is the xor of the selected sums.
proof fn lemma_select_sum_xor(
    c: u8,
    p0: u8, p1: u8, p2: u8, p3: u8, p4: u8, p5: u8, p6: u8, p7: u8,
    q0: u8, q1: u8, q2: u8, q3: u8, q4: u8, q5: u8, q6: u8, q7: u8,
)
    ensures
        select_sum(c, p0 ^ q0, p1 ^ q1, p2 ^ q2, p3 ^ q3, p4 ^ q4, p5 ^ q5, p6 ^ q6, p7 ^ q7)
            == select_sum(c, p0, p1, p2, p3, p4, p5, p6, p7) ^ select_sum(c, q0, q1, q2, q3, q4, q5, q6, q7),
{
    assert(select_sum(c, p0 ^ q0, p1 ^ q1, p2 ^ q2, p3 ^ q3, p4 ^ q4, p5 ^ q5, p6 ^ q6, p7 ^ q7)
        == select_sum(c, p0, p1, p2, p3, p4, p5, p6, p7) ^ select_sum(c, q0, q1, q2, q3, q4, q5, q6, q7))
        by (bit_vector);
}

/// `xtime` of a selected sum is the selected sum of the `xtime`s.
proof fn lemma_select_sum_xtime(c: u8, p0: u8, p1: u8, p2: u8, p3: u8, p4: u8, p5: u8, p6: u8, p7: u8)
    ensures
        xtime(select_sum(c, p0, p1, p2, p3, p4, p5, p6, p7)) == select_sum(
            c,
            xtime(p0),
            xtime(p1),
            xtime(p2),
            xtime(p3),
            xtime(p4),
            xtime(p5),
            xtime(p6),
            xtime(p7),
        ),
{
    assert(xtime(select_sum(c, p0, p1, p2, p3, p4, p5, p6, p7)) == select_sum(
        c,
        xtime(p0),
        xtime(p1),
        xtime(p2),
        xtime(p3),
        xtime(p4),
        xtime(p5),
        xtime(p6),
        xtime(p7),
    )) by (bit_vector);
}

/// A product as a selected sum of the multiples of its first factor by the
/// powers of `x`.
proof fn lemma_gf_mul_as_select_sum(a: u8, b: u8)
    ensures
        gf_mul(a, b) == select_sum(
            b,
            a,
            xtime(a),
            xtime(xtime(a)),
            xtime(xtime(xtime(a))),
            xtime(xtime(xtime(xtime(a)))),
            xtime(xtime(xtime(xtime(xtime(a))))),
            xtime(xtime(xtime(xtime(xtime(xtime(a)))))),
            xtime(xtime(xtime(xtime(xtime(xtime(xtime(a))))))),
        ),
{
}

/// Multiplication distributes over addition (xor) in its first factor.
pub proof fn lemma_gf_mul_distributive_left(a: u8, b: u8, c: u8)
    ensures
        gf_mul(a ^ b, c) == gf_mul(a, c) ^ gf_mul(b, c),
{
    let a1 = xtime(a);
    let a2 = xtime(a1);
    let a3 = xtime(a2);
    let a4 = xtime(a3);
    let a5 = xtime(a4);
    let a6 = xtime(a5);
    let a7 = xtime(a6);
    let b1 = xtime(b);
    let b2 = xtime(b1);
    let b3 = xtime(b2);
    let b4 = xtime(b3);
    let b5 = xtime(b4);
    let b6 = xtime(b5);
    let b7 = xtime(b6);
    lemma_xtime_linear(a, b);
    lemma_xtime_linear(a1, b1);
    lemma_xtime_linear(a2, b2);
    lemma_xtime_linear(a3, b3);
    lemma_xtime_linear(a4, b4);
    lemma_xtime_linear(a5, b5);
    lemma_xtime_linear(a6, b6);
    lemma_gf_mul_as_select_sum(a ^ b, c);
    lemma_gf_mul_as_select_sum(a, c);
    lemma_gf_mul_as_select_sum(b, c);
    lemma_select_sum_xor(c, a, a1, a2, a3, a4, a5, a6, a7, b, b1, b2, b3, b4, b5, b6, b7);
}

/// Multiplying a product by `x` multiplies its first factor by `x`.
proof fn lemma_gf_mul_xtime_left(a: u8, b: u8)
    ensures
        xtime(gf_mul(a, b)) == gf_mul(xtime(a), b),
{
    let a1 = xtime(a);
    let a2 = xtime(a1);
    let a3 = xtime(a2);
    let a4 = xtime(a3);
    let a5 = xtime(a4);
    let a6 = xtime(a5);
    let a7 = xtime(a6);
    lemma_gf_mul_as_select_sum(a, b);
    lemma_gf_mul_as_select_sum(a1, b);
    lemma_select_sum_xtime(b, a, a1, a2, a3, a4, a5, a6, a7);
}

/// The product of a power of `x` and `a` is `a` multiplied by `x` that many
/// times.
proof fn lemma_gf_mul_powers_of_x(a: u8)
    ensures
        gf_mul(0x01u8, a) == a,
        gf_mul(0x02u8, a) == xtime(a),
        gf_mul(0x04u8, a) == xtime(xtime(a)),
        gf_mul(0x08u8, a) == xtime(xtime(xtime(a))),
        gf_mul(0x10u8, a) == xtime(xtime(xtime(xtime(a)))),
        gf_mul(0x20u8, a) == xtime(xtime(xtime(xtime(xtime(a))))),
        gf_mul(0x40u8, a) == xtime(xtime(xtime(xtime(xtime(xtime(a)))))),
        gf_mul(0x80u8, a) == xtime(xtime(xtime(xtime(xtime(xtime(xtime(a))))))),
{
    lemma_gf_mul_unit_zero(a);
    assert(xtime(0x01u8) == 0x02u8 && xtime(0x02u8) == 0x04u8 && xtime(0x04u8) == 0x08u8 && xtime(
        0x08u8,
    ) == 0x10u8 && xtime(0x10u8) == 0x20u8 && xtime(0x20u8) == 0x40u8 && xtime(0x40u8) == 0x80u8)
        by (bit_vector);
    lemma_gf_mul_xtime_left(0x01u8, a);
    lemma_gf_mul_xtime_left(0x02u8, a);
    lemma_gf_mul_xtime_left(0x04u8, a);
    lemma_gf_mul_xtime_left(0x08u8, a);
    lemma_gf_mul_xtime_left(0x10u8, a);
    lemma_gf_mul_xtime_left(0x20u8, a);
    lemma_gf_mul_xtime_left(0x40u8, a);
}

/// A product as a selected sum of the products of the powers of `x` by its
/// second factor.
proof fn lemma_gf_mul_decompose_left(b: u8, a: u8)
    ensures
        gf_mul(b, a) == select_sum(
            b,
            gf_mul(0x01u8, a),
            gf_mul(0x02u8, a),
            gf_mul(0x04u8, a),
            gf_mul(0x08u8, a),
            gf_mul(0x10u8, a),
            gf_mul(0x20u8, a),
            gf_mul(0x40u8, a),
            gf_mul(0x80u8, a),
        ),
{
    let e0 = b & 0x01u8;
    let e1 = b & 0x02u8;
    let e2 = b & 0x04u8;
    let e3 = b & 0x08u8;
    let e4 = b & 0x10u8;
    let e5 = b & 0x20u8;
    let e6 = b & 0x40u8;
    let e7 = b & 0x80u8;
    assert(b == e0 ^ e1 ^ e2 ^ e3 ^ e4 ^ e5 ^ e6 ^ e7) by (bit_vector)
        requires
            e0 == b & 0x01u8,
            e1 == b & 0x02u8,
            e2 == b & 0x04u8,
            e3 == b & 0x08u8,
            e4 == b & 0x10u8,
            e5 == b & 0x20u8,
            e6 == b & 0x40u8,
            e7 == b & 0x80u8,
    ;
    assert((e0 == 0u8 || e0 == 0x01u8) && (e1 == 0u8 || e1 == 0x02u8) && (e2 == 0u8 || e2
        == 0x04u8) && (e3 == 0u8 || e3 == 0x08u8) && (e4 == 0u8 || e4 == 0x10u8) && (e5 == 0u8
        || e5 == 0x20u8) && (e6 == 0u8 || e6 == 0x40u8) && (e7 == 0u8 || e7 == 0x80u8))
        by (bit_vector)
        requires
            e0 == b & 0x01u8,
            e1 == b & 0x02u8,
            e2 == b & 0x04u8,
            e3 == b & 0x08u8,
            e4 == b & 0x10u8,
            e5 == b & 0x20u8,
            e6 == b & 0x40u8,
            e7 == b & 0x80u8,
    ;
    lemma_gf_mul_distributive_left(e0 ^ e1 ^ e2 ^ e3 ^ e4 ^ e5 ^ e6, e7, a);
    lemma_gf_mul_distributive_left(e0 ^ e1 ^ e2 ^ e3 ^ e4 ^ e5, e6, a);
    lemma_gf_mul_distributive_left(e0 ^ e1 ^ e2 ^ e3 ^ e4, e5, a);
    lemma_gf_mul_distributive_left(e0 ^ e1 ^ e2 ^ e3, e4, a);
    lemma_gf_mul_distributive_left(e0 ^ e1 ^ e2, e3, a);
    lemma_gf_mul_distributive_left(e0 ^ e1, e2, a);
    lemma_gf_mul_distributive_left(e0, e1, a);
    lemma_gf_mul_unit_zero(a);
}

/// Multiplication in GF(2^8) is commutative.
pub proof fn lemma_gf_mul_commutative(a: u8, b: u8)
    ensures
        gf_mul(a, b) == gf_mul(b, a),
{
    lemma_gf_mul_decompose_left(b, a);
    lemma_gf_mul_powers_of_x(a);
    lemma_gf_mul_as_select_sum(a, b);
}

/// Multiplying a selected sum multiplies each of its terms.
proof fn lemma_gf_mul_select_sum_left(
    c: u8,
    p0: u8, p1: u8, p2: u8, p3: u8, p4: u8, p5: u8, p6: u8, p7: u8,
    y: u8,
)
    ensures
        gf_mul(select_sum(c, p0, p1, p2, p3, p4, p5, p6, p7), y) == select_sum(
            c,
            gf_mul(p0, y),
            gf_mul(p1, y),
            gf_mul(p2, y),
            gf_mul(p3, y),
            gf_mul(p4, y),
            gf_mul(p5, y),
            gf_mul(p6, y),
            gf_mul(p7, y),
        ),
{
    let t0 = if c & 0x01u8 != 0 { p0 } else { 0u8 };
    let t1 = if c & 0x02u8 != 0 { p1 } else { 0u8 };
    let t2 = if c & 0x04u8 != 0 { p2 } else { 0u8 };
    let t3 = if c & 0x08u8 != 0 { p3 } else { 0u8 };
    let t4 = if c & 0x10u8 != 0 { p4 } else { 0u8 };
    let t5 = if c & 0x20u8 != 0 { p5 } else { 0u8 };
    let t6 = if c & 0x40u8 != 0 { p6 } else { 0u8 };
    let t7 = if c & 0x80u8 != 0 { p7 } else { 0u8 };
    assert(select_sum(c, p0, p1, p2, p3, p4, p5, p6, p7) == t0 ^ t1 ^ t2 ^ t3 ^ t4 ^ t5 ^ t6 ^ t7);
    lemma_gf_mul_distributive_left(t0 ^ t1 ^ t2 ^ t3 ^ t4 ^ t5 ^ t6, t7, y);
    lemma_gf_mul_distributive_left(t0 ^ t1 ^ t2 ^ t3 ^ t4 ^ t5, t6, y);
    lemma_gf_mul_distributive_left(t0 ^ t1 ^ t2 ^ t3 ^ t4, t5, y);
    lemma_gf_mul_distributive_left(t0 ^ t1 ^ t2 ^ t3, t4, y);
    lemma_gf_mul_distributive_left(t0 ^ t1 ^ t2, t3, y);
    lemma_gf_mul_distributive_left(t0 ^ t1, t2, y);
    lemma_gf_mul_distributive_left(t0, t1, y);
    lemma_gf_mul_unit_zero(y);
}

/// Multiplication in GF(2^8) is associative.
pub proof fn lemma_gf_mul_associative(a: u8, b: u8, c: u8)
    ensures
        gf_mul(gf_mul(a, b), c) == gf_mul(a, gf_mul(b, c)),
{
    let a1 = xtime(a);
    let a2 = xtime(a1);
    let a3 = xtime(a2);
    let a4 = xtime(a3);
    let a5 = xtime(a4);
    let a6 = xtime(a5);
    let b1 = xtime(b);
    let b2 = xtime(b1);
    let b3 = xtime(b2);
    let b4 = xtime(b3);
    let b5 = xtime(b4);
    let b6 = xtime(b5);
    let b7 = xtime(b6);
    let ab = gf_mul(a, b);
    lemma_gf_mul_xtime_left(a, b);
    lemma_gf_mul_xtime_left(a1, b);
    lemma_gf_mul_xtime_left(a2, b);
    lemma_gf_mul_xtime_left(a3, b);
    lemma_gf_mul_xtime_left(a4, b);
    lemma_gf_mul_xtime_left(a5, b);
    lemma_gf_mul_xtime_left(a6, b);
    lemma_gf_mul_xtime_left(b, a);
    lemma_gf_mul_xtime_left(b1, a);
    lemma_gf_mul_xtime_left(b2, a);
    lemma_gf_mul_xtime_left(b3, a);
    lemma_gf_mul_xtime_left(b4, a);
    lemma_gf_mul_xtime_left(b5, a);
    lemma_gf_mul_xtime_left(b6, a);
    lemma_gf_mul_commutative(a, b);
    lemma_gf_mul_commutative(a, gf_mul(b, c));
    lemma_gf_mul_as_select_sum(ab, c);
    lemma_gf_mul_as_select_sum(b, c);
    lemma_gf_mul_select_sum_left(c, b, b1, b2, b3, b4, b5, b6, b7, a);
}

} // verus!
