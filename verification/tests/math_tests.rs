use cinematography_ir::hash::{splitmix64, stable_hash};

#[test]
fn math_hashes_are_stable() {
    assert_eq!(stable_hash("alice"), stable_hash("alice"));
    assert_ne!(stable_hash("alice"), stable_hash("bob"));
    let mut a = 7;
    let mut b = 7;
    assert_eq!(splitmix64(&mut a), splitmix64(&mut b));
}

#[test]
fn math_tests_hashes_are_stable() {
    assert_eq!(stable_hash("alice"), stable_hash("alice"));
    assert_ne!(stable_hash("alice"), stable_hash("bob"));
    let mut a = 7;
    let mut b = 7;
    assert_eq!(splitmix64(&mut a), splitmix64(&mut b));
}

#[test]
fn stable_hash_of_empty_text_is_the_offset_basis() {
    assert_eq!(stable_hash(""), 0xcbf2_9ce4_8422_2325);
}

#[test]
fn stable_hash_matches_published_fnv1a_values() {
    assert_eq!(stable_hash("a"), 0xaf63_dc4c_8601_ec8c);
    assert_eq!(stable_hash("foobar"), 0x85944171f73967e8);
}

#[test]
fn stable_hash_hashes_utf8_bytes() {
    // "é" is the two bytes C3 A9.
    let mut expected: u64 = 0xcbf2_9ce4_8422_2325;
    for byte in [0xc3u8, 0xa9] {
        expected ^= byte as u64;
        expected = expected.wrapping_mul(0x0000_0100_0000_01b3);
    }
    assert_eq!(stable_hash("é"), expected);
}

#[test]
fn splitmix64_from_zero_matches_the_reference_stream() {
    let mut state = 0;
    assert_eq!(splitmix64(&mut state), 0xe220_a839_7b1d_cdaf);
    assert_eq!(state, 0x9e37_79b9_7f4a_7c15);
    assert_eq!(splitmix64(&mut state), 0x6e78_9e6a_a1b9_65f4);
}
