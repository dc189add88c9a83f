use needle::audio::simhash::simhash32;
use needle::bits::hamming_distance;

#[test]
fn simhash_of_one_hash_is_that_hash() {
    assert_eq!(simhash32(&[3740390231]), 3740390231);
}

#[test]
fn simhash_of_a_few_hashes() {
    let data: [u32; 11] = [
        3740390231, 3739276119, 3730871573, 3743460629, 3743525173, 3744594229, 3727948087,
        1584920886, 1593302326, 1593295926, 1584907318,
    ];
    assert_eq!(simhash32(&data), 3732003127);
}

#[test]
fn simhash_of_nothing_is_zero() {
    assert_eq!(simhash32(&[]), 0);
}

#[test]
fn simhash_takes_the_majority_and_a_tie_is_zero() {
    assert_eq!(simhash32(&[0b1100, 0b1010]), 0b1000);
    assert_eq!(simhash32(&[0b111, 0b101, 0b001]), 0b101);
    assert_eq!(simhash32(&[u32::MAX, 0]), 0);
    assert_eq!(simhash32(&[u32::MAX, u32::MAX, 0]), u32::MAX);
}

#[test]
fn hamming_distance_counts_differing_bits() {
    assert_eq!(hamming_distance(0, 0), 0);
    assert_eq!(hamming_distance(0, u32::MAX), 32);
    assert_eq!(hamming_distance(0b1011, 0b0001), 2);
    assert_eq!(hamming_distance(0x8000_0000, 1), 2);
    assert_eq!(hamming_distance(7, 9), hamming_distance(9, 7));
}
