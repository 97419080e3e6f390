use atomic_swap::u256::U256;
use atomic_swap::witness::{build_wtns, fnv, to_array32};

#[test]
fn test_fnv_known_vectors() {
    // FNV-1a 64 of "a" is 0xaf63dc4c8601ec8c; the empty string hashes to the
    // offset basis 0xcbf29ce484222325.
    assert_eq!(fnv("a"), (0xaf63dc4c, 0x8601ec8c));
    assert_eq!(fnv(""), (0xcbf29ce4, 0x84222325));
    assert_eq!(fnv("secret"), (2871259374, 3223374161));
}

#[test]
fn test_to_array32_layout() {
    // 2^32 + 7 sits in the lowest limb: one high word and one low word.
    let v = U256::from_u128((1u128 << 32) + 7);
    let words = to_array32(&v, 8);
    assert_eq!(words, vec![0, 0, 0, 0, 0, 0, 1, 7]);
    // extra leading words stay zero
    let words10 = to_array32(&v, 10);
    assert_eq!(words10, vec![0, 0, 0, 0, 0, 0, 0, 0, 1, 7]);
    // a value in the highest limb lands in the first two words
    let hi = U256 {
        limbs: [0, 0, 0, 0x0000_0001_0000_0002],
    };
    let w = to_array32(&hi, 8);
    assert_eq!(w, vec![1, 2, 0, 0, 0, 0, 0, 0]);
}

#[test]
fn test_build_wtns_layout() {
    let n32: u32 = 8;
    let prime: Vec<u32> = vec![
        0xd87cfd47, 0x3c208c16, 0x6871ca8d, 0x97816a91, 0x8181585d, 0xb85045b6, 0xe131a029,
        0x30644e72,
    ];
    let words: Vec<u32> = vec![1, 0, 0, 0, 0, 0, 0, 0];
    let blob = build_wtns(n32, &prime, 1, &words);
    assert_eq!(&blob[0..4], b"wtns");
    assert_eq!(&blob[4..8], &2u32.to_le_bytes());
    assert_eq!(&blob[8..12], &2u32.to_le_bytes());
    assert_eq!(&blob[12..16], &1u32.to_le_bytes());
    // section 1 length: n8 + 8
    assert_eq!(&blob[16..24], &40u64.to_le_bytes());
    assert_eq!(&blob[24..28], &32u32.to_le_bytes());
    assert_eq!(&blob[28..32], &0xd87cfd47u32.to_le_bytes());
    // witness count
    assert_eq!(&blob[60..64], &1u32.to_le_bytes());
    // section 2 header and payload
    assert_eq!(&blob[64..68], &2u32.to_le_bytes());
    assert_eq!(&blob[68..76], &32u64.to_le_bytes());
    assert_eq!(&blob[76..80], &1u32.to_le_bytes());
    assert_eq!(blob.len(), 76 + 32);
}
