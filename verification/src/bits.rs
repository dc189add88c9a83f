//! Bit counting on 32-bit hashes.

use vstd::prelude::*;

verus! {

/// Number of one bits in the binary representation of `x`.
pub open spec fn popcount(x: u32) -> nat
    decreases x,
{
    if x == 0 {
        0
    } else {
        (x % 2) as nat + popcount(x / 2)
    }
}

/// Number of bit positions in which `a` and `b` differ.
pub open spec fn hamming(a: u32, b: u32) -> nat {
    popcount(a ^ b)
}

/// No more than 32 bits are set.
pub proof fn lemma_popcount_bound(x: u32)
    ensures
        popcount(x) <= 32,
{
    reveal_with_fuel(pow2, 33);
    assert(pow2(32) == 0x1_0000_0000);
    lemma_popcount_below(x, 32);
}

proof fn lemma_popcount_below(x: u32, bits: nat)
    requires
        bits <= 32,
        (x as int) < pow2(bits),
    ensures
        popcount(x) <= bits,
    decreases bits,
{
    if x != 0 {
        assert(pow2(bits) == 2 * pow2((bits - 1) as nat));
        lemma_popcount_below(x / 2, (bits - 1) as nat);
    }
}

/// Two to the power of `n`.
pub open spec fn pow2(n: nat) -> int
    decreases n,
{
    if n == 0 {
        1
    } else {
        2 * pow2((n - 1) as nat)
    }
}

/// No bit is set in zero, and in zero only.
pub proof fn lemma_popcount_zero(x: u32)
    ensures
        popcount(x) == 0 <==> x == 0,
    decreases x,
{
    if x != 0 && x % 2 == 0 {
        lemma_popcount_zero(x / 2);
    }
}

/// Two hashes differ in no bit if and only if they are equal.
pub proof fn lemma_hamming_zero(a: u32, b: u32)
    ensures
        hamming(a, b) == 0 <==> a == b,
{
    lemma_popcount_zero(a ^ b);
    assert((a ^ b == 0) <==> (a == b)) by (bit_vector);
}

/// Two hashes differ in as many bits in either order, and in no more than 32.
pub proof fn lemma_hamming_symmetric(a: u32, b: u32)
    ensures
        hamming(a, b) == hamming(b, a),
        hamming(a, b) <= 32,
{
    assert(a ^ b == b ^ a) by (bit_vector);
    lemma_popcount_bound(a ^ b);
}

/// `u32::count_ones` returns the number of ones in the binary representation
/// of its argument.
pub assume_specification[ u32::count_ones ](i: u32) -> (r: u32)
    ensures
        r == popcount(i),
;

/// Hamming distance between two hashes.
pub fn hamming_distance(a: u32, b: u32) -> (d: u32)
    ensures
        d == hamming(a, b),
{
    (a ^ b).count_ones()
}

} // verus!
