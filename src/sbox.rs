use vstd::prelude::*;
use crate::gf::{gf_inv, gf_mul, inv};

verus! {

/// Left rotation of a byte by `n` bits, for `0 < n < 8`.
pub open spec fn rotl(x: u8, n: u8) -> u8 {
    ((x << n) | (x >> ((8 - n) as u8))) as u8
}

/// The affine map of the substitution box.
pub open spec fn affine(x: u8) -> u8 {
    x ^ rotl(x, 1) ^ rotl(x, 2) ^ rotl(x, 3) ^ rotl(x, 4) ^ 0x63
}

/// The inverse of the affine map.
pub open spec fn inv_affine(s: u8) -> u8 {
    rotl(s, 1) ^ rotl(s, 3) ^ rotl(s, 6) ^ 0x05
}

/// The substitution box: field inversion (zero kept as zero), then the affine map.
pub open spec fn s_box_spec(b: u8) -> u8 {
    affine(if b == 0 { 0 } else { gf_inv(b) })
}

/// The inverse substitution box: the inverse affine map, then field inversion (zero kept).
pub open spec fn inv_s_box_spec(s: u8) -> u8 {
    let y = inv_affine(s);
    if y == 0 { 0 } else { gf_inv(y) }
}

fn rotate_left(x: u8, n: u8) -> (r: u8)
    requires
        0 < n < 8,
    ensures
        r == rotl(x, n),
{
    (x << n) | (x >> (8 - n))
}

/// Applies the substitution box to one byte.
pub fn s_box(b: u8) -> (r: u8)
    ensures
        r == s_box_spec(b),
{
    let inv_b = if b == 0 { 0 } else { inv(b) };
    inv_b ^ rotate_left(inv_b, 1) ^ rotate_left(inv_b, 2) ^ rotate_left(inv_b, 3) ^ rotate_left(
        inv_b,
        4,
    ) ^ 0x63
}

/// Applies the inverse substitution box to one byte.
pub fn inv_s_box(s: u8) -> (r: u8)
    ensures
        r == inv_s_box_spec(s),
{
    let inv_b = rotate_left(s, 1) ^ rotate_left(s, 3) ^ rotate_left(s, 6) ^ 0x05;
    if inv_b == 0 {
        0
    } else {
        inv(inv_b)
    }
}

proof fn lemma_affine_round_trip(x: u8)
    by (bit_vector)
    ensures
        inv_affine(affine(x)) == x,
{
}

proof fn lemma_mul_zero(b: u8)
    by (bit_vector)
    ensures
        gf_mul(b, 0) == 0,
{
}

/// Inverting a nonzero element twice gives it back.
pub proof fn lemma_inv_involution(b: u8)
    requires
        b != 0,
    ensures
        gf_inv(b) != 0,
        gf_inv(gf_inv(b)) == b,
{
    let x = gf_inv(b);
    crate::gf::lemma_mul_inverse(b);
    lemma_mul_zero(b);
    crate::gf::lemma_mul_commutes(b, x);
    crate::gf::lemma_mul_inverse(x);
    let y = gf_inv(x);
    crate::gf::lemma_mul_distributes(x, b, y);
    assert(1u8 ^ 1u8 == 0u8) by (bit_vector);
    if b ^ y != 0 {
        crate::gf::lemma_no_zero_divisors(x, b ^ y);
    }
    assert(b ^ y == 0 ==> b == y) by (bit_vector);
}

/// The inverse substitution box undoes the substitution box on every byte.
pub proof fn lemma_s_box_round_trip(b: u8)
    ensures
        inv_s_box_spec(s_box_spec(b)) == b,
{
    let x = if b == 0 { 0 } else { gf_inv(b) };
    lemma_affine_round_trip(x);
    if b != 0 {
        lemma_inv_involution(b);
    }
}

} // verus!
