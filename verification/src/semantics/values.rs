//! The arithmetic of the machine's 32-bit integers: what the operators of
//! the language compute where their operands are defined. Overflow wraps
//! around, and a shift takes the low five bits of its count.

use vstd::prelude::*;

verus! {

/// The 32-bit two's-complement integer that is congruent to `x`.
#[verifier::opaque]
pub open spec fn wrap32(x: int) -> i32 {
    let m = x % 0x1_0000_0000;
    if m >= 0x8000_0000 {
        (m - 0x1_0000_0000) as i32
    } else {
        m as i32
    }
}

/// A 32-bit integer is congruent to itself.
pub proof fn lemma_wrap32_same(x: i32)
    ensures
        wrap32(x as int) == x,
{
    reveal(wrap32);
}

/// Two to the power of `n`.
pub open spec fn pow2(n: nat) -> int
    decreases n,
{
    if n == 0 {
        1
    } else {
        2 * pow2((n - 1) as nat)
    }
}

/// The low byte of a 32-bit integer, as a number from 0 to 255.
#[verifier::opaque]
pub open spec fn low_byte(x: i32) -> int {
    (x as int) % 256
}

/// The low byte is a number from 0 to 255, and the low byte of such a
/// number is the number.
pub proof fn lemma_low_byte(x: i32)
    ensures
        0 <= low_byte(x) < 256,
        0 <= x < 256 ==> low_byte(x) == x,
{
    reveal(low_byte);
}

/// The 32-bit integer `x` with its low byte replaced by `b`.
pub open spec fn with_low_byte(x: i32, b: int) -> i32 {
    wrap32(x - low_byte(x) + b)
}

/// The count of a shift: the low five bits of the low byte.
pub open spec fn shift_count(x: i32) -> nat {
    (low_byte(x) % 32) as nat
}

/// The sum, wrapped around.
pub open spec fn add32(a: i32, b: i32) -> i32 {
    wrap32(a + b)
}

/// The difference, wrapped around.
pub open spec fn sub32(a: i32, b: i32) -> i32 {
    wrap32(a - b)
}

/// The product, wrapped around.
pub open spec fn mul32(a: i32, b: i32) -> i32 {
    wrap32(a * b)
}

/// The negation, wrapped around.
pub open spec fn neg32(a: i32) -> i32 {
    wrap32(-a)
}

/// The complement of every bit.
pub open spec fn not32(a: i32) -> i32 {
    wrap32(-a - 1)
}

/// `a` shifted to the left by the count that `b` gives, wrapped around.
pub open spec fn shl32(a: i32, b: i32) -> i32 {
    wrap32(a * pow2(shift_count(b)))
}

/// `a` shifted to the right by the count that `b` gives, the sign kept.
pub open spec fn sar32(a: i32, b: i32) -> i32 {
    wrap32((a as int) / pow2(shift_count(b)))
}

/// The bits that both have.
pub open spec fn and32(a: i32, b: i32) -> i32 {
    a & b
}

/// The bits that either has.
pub open spec fn or32(a: i32, b: i32) -> i32 {
    a | b
}

/// The bits that one of the two has.
pub open spec fn xor32(a: i32, b: i32) -> i32 {
    a ^ b
}

/// The distance of `x` from zero.
pub open spec fn magnitude(x: int) -> int {
    if x < 0 {
        -x
    } else {
        x
    }
}

/// Whether the machine divides `a` by `b`: not by zero, and not the least
/// integer by -1.
pub open spec fn divides(a: i32, b: i32) -> bool {
    b != 0 && !(a == i32::MIN && b == -1)
}

/// The quotient, rounded towards zero.
pub open spec fn div32(a: i32, b: i32) -> i32
    recommends
        divides(a, b),
{
    if (a >= 0) == (b > 0) {
        wrap32(magnitude(a as int) / magnitude(b as int))
    } else {
        wrap32(-(magnitude(a as int) / magnitude(b as int)))
    }
}

/// The remainder, with the sign of the dividend.
pub open spec fn rem32(a: i32, b: i32) -> i32
    recommends
        divides(a, b),
{
    wrap32(a - div32(a, b) * b)
}

/// A byte of 0 or 1 stored over the low byte of zero gives the byte.
pub proof fn lemma_truth_byte(b: bool)
    ensures
        with_low_byte(0, truth(b) as int) == truth(b),
{
    reveal(wrap32);
    reveal(low_byte);
}

/// The low byte that was stored is the low byte that is there.
pub proof fn lemma_low_byte_stored(x: i32, b: int)
    requires
        0 <= b < 256,
    ensures
        low_byte(with_low_byte(x, b)) == b,
{
    reveal(wrap32);
    reveal(low_byte);
    let y = x - (x as int) % 256 + b;
    let m = y % 0x1_0000_0000;
    assert(y % 256 == b) by (nonlinear_arith)
        requires
            y == x - (x as int) % 256 + b,
            0 <= b < 256,
    ;
    assert(m % 256 == b) by (nonlinear_arith)
        requires
            m == y % 0x1_0000_0000,
            y % 256 == b,
    ;
    assert((m - 0x1_0000_0000) % 256 == b) by (nonlinear_arith)
        requires
            m % 256 == b,
    ;
}

/// A shift takes its count from the low byte alone.
pub proof fn lemma_shift_low(a: i32, b: i32, low: i32)
    requires
        low == low_byte(b),
    ensures
        shl32(a, low) == shl32(a, b),
        sar32(a, low) == sar32(a, b),
{
    reveal(low_byte);
}

/// 1 for true and 0 for false.
pub open spec fn truth(b: bool) -> i32 {
    if b {
        1
    } else {
        0
    }
}

} // verus!
