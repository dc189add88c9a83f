//! 32-bit simhash: the bitwise majority vote of a sequence of hashes.

use vstd::prelude::*;

verus! {

/// Whether bit number `bit` of `x` is one.
pub open spec fn bit_is_set(x: u32, bit: u32) -> bool {
    (x >> bit) & 1 == 1
}

/// How many elements of `data` have bit number `bit` set.
pub open spec fn ones_at(data: Seq<u32>, bit: u32) -> nat
    decreases data.len(),
{
    if data.len() == 0 {
        0
    } else {
        ones_at(data.drop_last(), bit) + if bit_is_set(data.last(), bit) {
            1nat
        } else {
            0nat
        }
    }
}

/// More elements of `data` have bit number `bit` set than have it clear.
pub open spec fn majority(data: Seq<u32>, bit: u32) -> bool {
    2 * ones_at(data, bit) > data.len()
}

/// The lowest `k` bits of the simhash of `data`.
pub open spec fn simhash_low_bits(data: Seq<u32>, k: u32) -> u32
    decreases k,
{
    if k == 0 {
        0
    } else {
        let low = simhash_low_bits(data, (k - 1) as u32);
        if majority(data, (k - 1) as u32) {
            low | (1u32 << ((k - 1) as u32))
        } else {
            low
        }
    }
}

/// The simhash of `data`: bit by bit, the value that most elements have.
/// A bit on which the elements are evenly split is zero, so the simhash of
/// no data at all is zero.
pub open spec fn simhash32_spec(data: Seq<u32>) -> u32 {
    simhash_low_bits(data, 32)
}

/// No more elements have a bit set than there are elements.
pub proof fn lemma_ones_at_bound(data: Seq<u32>, bit: u32)
    ensures
        ones_at(data, bit) <= data.len(),
    decreases data.len(),
{
    if data.len() > 0 {
        lemma_ones_at_bound(data.drop_last(), bit);
    }
}

proof fn lemma_low_bits(data: Seq<u32>, k: u32, bit: u32)
    requires
        k <= 32,
        bit < 32,
    ensures
        bit_is_set(simhash_low_bits(data, k), bit) <==> (bit < k && majority(data, bit)),
    decreases k,
{
    if k == 0 {
        assert(!bit_is_set(0u32, bit)) by (bit_vector);
    } else {
        let j = (k - 1) as u32;
        let low = simhash_low_bits(data, j);
        lemma_low_bits(data, j, bit);
        assert(bit_is_set(low | (1u32 << j), bit) <==> (bit == j || bit_is_set(low, bit)))
            by (bit_vector)
            requires
                j < 32,
                bit < 32,
        ;
    }
}

/// Bit number `bit` of the simhash is set exactly where more than half of
/// the elements have that bit set.
pub proof fn lemma_simhash_bit(data: Seq<u32>, bit: u32)
    requires
        bit < 32,
    ensures
        bit_is_set(simhash32_spec(data), bit) <==> majority(data, bit),
{
    lemma_low_bits(data, 32, bit);
}

/// Computes the 32-bit simhash of `data`.
pub fn simhash32(data: &[u32]) -> (hash: u32)
    ensures
        hash == simhash32_spec(data@),
{
    let n = data.len();
    let mut ones: Vec<usize> = Vec::new();
    let mut b: u32 = 0;
    while b < 32
        invariant
            b <= 32,
            ones@.len() == b,
            forall|j: int| 0 <= j < b ==> ones@[j] == 0,
        decreases 32 - b,
    {
        ones.push(0);
        b += 1;
    }
    let mut i: usize = 0;
    while i < n
        invariant
            n == data@.len(),
            0 <= i <= n,
            ones@.len() == 32,
            forall|j: int| 0 <= j < 32 ==> ones@[j] == ones_at(data@.take(i as int), j as u32),
        decreases n - i,
    {
        let x = data[i];
        let ghost before = ones@;
        proof {
            assert(data@.take(i + 1).drop_last() == data@.take(i as int));
            assert(data@.take(i + 1).last() == x);
        }
        let mut j: u32 = 0;
        while j < 32
            invariant
                j <= 32,
                i < n,
                n == data@.len(),
                x == data@[i as int],
                ones@.len() == 32,
                before.len() == 32,
                forall|t: int| 0 <= t < 32 ==> before[t] == ones_at(data@.take(i as int), t as u32),
                forall|t: int| 0 <= t < j ==> ones@[t] == ones_at(data@.take(i + 1), t as u32),
                forall|t: int| j <= t < 32 ==> ones@[t] == before[t],
                data@.take(i + 1).drop_last() == data@.take(i as int),
                data@.take(i + 1).last() == x,
            decreases 32 - j,
        {
            proof {
                lemma_ones_at_bound(data@.take(i as int), j);
                assert(before[j as int] == ones_at(data@.take(i as int), j));
                assert(ones_at(data@.take(i + 1), j) == ones_at(data@.take(i as int), j) + if bit_is_set(
                    x,
                    j,
                ) {
                    1nat
                } else {
                    0nat
                });
            }
            if (x >> j) & 1 == 1 {
                let c = ones[j as usize];
                ones.set(j as usize, c + 1);
            }
            j += 1;
        }
        i += 1;
    }
    assert(data@.take(n as int) == data@);
    let mut hash: u32 = 0;
    let mut k: u32 = 0;
    while k < 32
        invariant
            k <= 32,
            n == data@.len(),
            ones@.len() == 32,
            forall|j: int| 0 <= j < 32 ==> ones@[j] == ones_at(data@, j as u32),
            hash == simhash_low_bits(data@, k),
        decreases 32 - k,
    {
        let c = ones[k as usize];
        proof {
            lemma_ones_at_bound(data@, k);
        }
        if c > n - c {
            hash = hash | (1u32 << k);
        }
        k += 1;
    }
    hash
}

} // verus!
