use vstd::prelude::*;

verus! {

/// The low byte of the reduction polynomial x^8 + x^4 + x^3 + x + 1.
pub const REDUCTION: u8 = 0x1b;

/// Multiplication by x: a left shift, folding the carried-out bit back in.
pub open spec fn xtime(x: u8) -> u8 {
    if x & 0x80 == 0 {
        (x << 1) as u8
    } else {
        ((x << 1) as u8) ^ 0x1b
    }
}

/// `x` multiplied `k` times by the field element x.
pub open spec fn xtime_iter(x: u8, k: nat) -> u8
    decreases k,
{
    if k == 0 {
        x
    } else {
        xtime(xtime_iter(x, (k - 1) as nat))
    }
}

/// Bit `i` of `b`, as a selector of `x`.
pub open spec fn pick(b: u8, i: u8, x: u8) -> u8 {
    if (b >> i) & 1 == 1 {
        x
    } else {
        0
    }
}

/// The field product in closed form: the sum (XOR) of `a * x^i` over the bits `i` set in `b`.
pub open spec fn gf_mul(a: u8, b: u8) -> u8 {
    let a1 = xtime(a);
    let a2 = xtime(a1);
    let a3 = xtime(a2);
    let a4 = xtime(a3);
    let a5 = xtime(a4);
    let a6 = xtime(a5);
    let a7 = xtime(a6);
    pick(b, 0, a) ^ pick(b, 1, a1) ^ pick(b, 2, a2) ^ pick(b, 3, a3) ^ pick(b, 4, a4) ^ pick(
        b,
        5,
        a5,
    ) ^ pick(b, 6, a6) ^ pick(b, 7, a7)
}

/// The sum of the first `n` terms of the product of `a` and `b`.
pub open spec fn gf_mul_upto(a: u8, b: u8, n: nat) -> u8
    decreases n,
{
    if n == 0 {
        0
    } else {
        gf_mul_upto(a, b, (n - 1) as nat) ^ pick(b, (n - 1) as u8, xtime_iter(a, (n - 1) as nat))
    }
}

proof fn lemma_mul_upto_full(a: u8, b: u8)
    ensures
        gf_mul_upto(a, b, 8) == gf_mul(a, b),
{
    reveal_with_fuel(gf_mul_upto, 9);
    reveal_with_fuel(xtime_iter, 8);
    let p = pick(b, 0, a);
    assert(0u8 ^ p == p) by (bit_vector);
}

/// Multiplies `x` by the field element x.
pub fn xtimes(x: u8) -> (r: u8)
    ensures
        r == xtime(x),
{
    if x & 0x80 == 0 {
        x << 1
    } else {
        (x << 1) ^ REDUCTION
    }
}

/// Field multiplication by double-and-add over the bits of `b`.
pub fn mult(a: u8, b: u8) -> (r: u8)
    ensures
        r == gf_mul(a, b),
{
    let mut result: u8 = 0;
    let mut temp: u8 = a;
    let mut i: u8 = 0;
    while i < 8
        invariant
            i <= 8,
            temp == xtime_iter(a, i as nat),
            result == gf_mul_upto(a, b, i as nat),
        decreases 8 - i,
    {
        if (b >> i) & 1 == 1 {
            result = result ^ temp;
        } else {
            assert(result ^ 0u8 == result) by (bit_vector);
        }
        temp = xtimes(temp);
        i = i + 1;
    }
    proof {
        lemma_mul_upto_full(a, b);
    }
    result
}

/// `base` raised to `exponent` by repeated multiplication; `1` for exponent zero.
pub open spec fn gf_pow(base: u8, exponent: nat) -> u8
    decreases exponent,
{
    if exponent == 0 {
        1
    } else {
        gf_mul(gf_pow(base, (exponent - 1) as nat), base)
    }
}

/// The inverse as the chain of squarings `a^2, a^4, ..., a^128` multiplied together,
/// which is `a^254`.
pub open spec fn gf_inv(a: u8) -> u8 {
    let t2 = gf_mul(a, a);
    let t3 = gf_mul(t2, t2);
    let t4 = gf_mul(t3, t3);
    let t5 = gf_mul(t4, t4);
    let t6 = gf_mul(t5, t5);
    let t7 = gf_mul(t6, t6);
    let t8 = gf_mul(t7, t7);
    gf_mul(gf_mul(gf_mul(gf_mul(gf_mul(gf_mul(t8, t7), t6), t5), t4), t3), t2)
}

/// Raises `base` to `exponent` by repeated multiplication.
pub fn pow(base: u8, exponent: u8) -> (r: u8)
    ensures
        r == gf_pow(base, exponent as nat),
{
    let mut result: u8 = 1;
    let mut k: u8 = 0;
    while k < exponent
        invariant
            k <= exponent,
            result == gf_pow(base, k as nat),
        decreases exponent - k,
    {
        result = mult(result, base);
        k = k + 1;
    }
    result
}

/// The multiplicative inverse of a nonzero element, as `a^254` through seven squarings.
pub fn inv(a: u8) -> (r: u8)
    ensures
        r == gf_inv(a),
{
    let t2 = mult(a, a);
    let t3 = mult(t2, t2);
    let t4 = mult(t3, t3);
    let t5 = mult(t4, t4);
    let t6 = mult(t5, t5);
    let t7 = mult(t6, t6);
    let t8 = mult(t7, t7);
    mult(mult(mult(mult(mult(mult(t8, t7), t6), t5), t4), t3), t2)
}

#[verifier::rlimit(100)]
proof fn lemma_inverse_chain(
    a: u8,
    t2: u8,
    t3: u8,
    t4: u8,
    t5: u8,
    t6: u8,
    t7: u8,
    t8: u8,
    p1: u8,
    p2: u8,
    p3: u8,
    p4: u8,
    p5: u8,
    p6: u8,
)
    by (bit_vector)
    requires
        a != 0,
        t2 == gf_mul(a, a),
        t3 == gf_mul(t2, t2),
        t4 == gf_mul(t3, t3),
        t5 == gf_mul(t4, t4),
        t6 == gf_mul(t5, t5),
        t7 == gf_mul(t6, t6),
        t8 == gf_mul(t7, t7),
        p1 == gf_mul(t8, t7),
        p2 == gf_mul(p1, t6),
        p3 == gf_mul(p2, t5),
        p4 == gf_mul(p3, t4),
        p5 == gf_mul(p4, t3),
        p6 == gf_mul(p5, t2),
    ensures
        gf_mul(a, p6) == 1,
{
}

/// Every nonzero element times its inverse is one.
pub proof fn lemma_mul_inverse(b: u8)
    requires
        b != 0,
    ensures
        gf_mul(b, gf_inv(b)) == 1,
{
    let t2 = gf_mul(b, b);
    let t3 = gf_mul(t2, t2);
    let t4 = gf_mul(t3, t3);
    let t5 = gf_mul(t4, t4);
    let t6 = gf_mul(t5, t5);
    let t7 = gf_mul(t6, t6);
    let t8 = gf_mul(t7, t7);
    let p1 = gf_mul(t8, t7);
    let p2 = gf_mul(p1, t6);
    let p3 = gf_mul(p2, t5);
    let p4 = gf_mul(p3, t4);
    let p5 = gf_mul(p4, t3);
    let p6 = gf_mul(p5, t2);
    lemma_inverse_chain(b, t2, t3, t4, t5, t6, t7, t8, p1, p2, p3, p4, p5, p6);
}

/// Multiplication is commutative.
#[verifier::rlimit(100)]
pub proof fn lemma_mul_commutes(a: u8, b: u8)
    by (bit_vector)
    ensures
        gf_mul(a, b) == gf_mul(b, a),
{
}

/// Multiplication distributes over addition (XOR).
pub proof fn lemma_mul_distributes(c: u8, x: u8, y: u8)
    by (bit_vector)
    ensures
        gf_mul(c, x ^ y) == gf_mul(c, x) ^ gf_mul(c, y),
{
}

/// The product of two nonzero elements is nonzero.
pub proof fn lemma_no_zero_divisors(c: u8, z: u8)
    by (bit_vector)
    requires
        c != 0,
        z != 0,
    ensures
        gf_mul(c, z) != 0,
{
}

} // verus!
