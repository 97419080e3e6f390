use atomic_swap::keys::{combine_points, public_of_secret, random_secret};
use atomic_swap::pubsignals::{
    parse_atomic_swap_proof_pubsignals, parse_poseidon_hash_from_str, parse_pubkey_from_str_vec,
    parse_scalar_from_str_slice, PubsignalsError,
};
use atomic_swap::u256::U256;

const GX_DEC: &str = "55066263022277343669578718895168534326250603453777594175500187360389116729240";
const GY_DEC: &str = "32670510020758816978083085130507043184471273380659243275938904335757337482424";

fn one_key_bytes() -> [u8; 32] {
    let mut k = [0u8; 32];
    k[31] = 1;
    k
}

fn two_key_bytes() -> [u8; 32] {
    let mut k = [0u8; 32];
    k[31] = 2;
    k
}

#[test]
fn test_public_of_secret_generator() {
    // The public key of scalar 1 is the generator point.
    let g = public_of_secret(&one_key_bytes()).unwrap();
    assert_eq!(g.bytes[0], 0x04);
    let x = U256::from_dec_str(GX_DEC).unwrap().to_bytes_be();
    let y = U256::from_dec_str(GY_DEC).unwrap().to_bytes_be();
    assert_eq!(&g.bytes[1..33], x.as_slice());
    assert_eq!(&g.bytes[33..65], y.as_slice());
}

#[test]
fn test_public_of_secret_rejects_zero() {
    assert!(public_of_secret(&[0u8; 32]).is_err());
}

#[test]
fn test_combine_is_point_addition() {
    // G + G must equal the public key of scalar 2.
    let g = public_of_secret(&one_key_bytes()).unwrap();
    let two_g = public_of_secret(&two_key_bytes()).unwrap();
    let sum = combine_points(&g, &g).unwrap();
    assert_eq!(sum.bytes, two_g.bytes);
    assert_ne!(sum.bytes, g.bytes);
}

#[test]
fn test_random_secret_generates_valid_scalars() {
    let k1 = random_secret();
    let k2 = random_secret();
    assert!(public_of_secret(&k1).is_ok());
    assert!(public_of_secret(&k2).is_ok());
    assert_ne!(k1, k2);
}

#[test]
fn test_compressed_form_of_generator() {
    let g = public_of_secret(&one_key_bytes()).unwrap();
    let hex = g.compressed_hex();
    assert_eq!(
        hex,
        "0279be667ef9dcbbac55a06295ce870b07029bfcdb2dce28d959f2815b16f81798"
    );
}

#[test]
fn test_uncompressed_hex_of_generator() {
    let g = public_of_secret(&one_key_bytes()).unwrap();
    let expected = "0479be667ef9dcbbac55a06295ce870b07029bfcdb2dce28d959f2815b16f81798483ada7726a3c4655da4fbfc0e1108a8fd17b448a68554199c47d08ffb10d4b8";
    assert_eq!(g.uncompressed_hex(), expected);
}

#[test]
fn test_parse_scalar_from_str_slice() {
    let raw = vec![
        "5858208856384070831".to_string(),
        "495162506494374".to_string(),
        "0".to_string(),
        "0".to_string(),
    ];
    let v = parse_scalar_from_str_slice(&raw).unwrap();
    assert_eq!(
        v,
        U256::from_dec_str("9134136032198266807219851950679215").unwrap()
    );
    let short = vec!["1".to_string()];
    assert_eq!(
        parse_scalar_from_str_slice(&short),
        Err(PubsignalsError::WrongLayout)
    );
    let bad = vec![
        "x".to_string(),
        "0".to_string(),
        "0".to_string(),
        "0".to_string(),
    ];
    assert_eq!(
        parse_scalar_from_str_slice(&bad),
        Err(PubsignalsError::NotDecimal)
    );
    let over = vec![
        "18446744073709551616".to_string(),
        "0".to_string(),
        "0".to_string(),
        "0".to_string(),
    ];
    assert_eq!(
        parse_scalar_from_str_slice(&over),
        Err(PubsignalsError::Overflow)
    );
}

#[test]
fn test_parse_poseidon_hash() {
    // 2^248 + 12345 fills all 32 big-endian bytes.
    let h = parse_poseidon_hash_from_str(
        "452312848583266388373324160190187140051835877600158453279131187530910675001",
    )
    .unwrap();
    assert_eq!(h[0], 0x01);
    assert_eq!(h[30], (12345u32 >> 8) as u8);
    assert_eq!(h[31], (12345u32 & 0xff) as u8);
    // A small hash is zero-padded on the left to the full hashlock word.
    let small = parse_poseidon_hash_from_str("12345").unwrap();
    assert_eq!(&small[..30], &[0u8; 30]);
    assert_eq!(small[30], 0x30);
    assert_eq!(small[31], 0x39);
    assert_eq!(parse_poseidon_hash_from_str("0").unwrap(), [0u8; 32]);
    assert_eq!(
        parse_poseidon_hash_from_str("not-a-number"),
        Err(PubsignalsError::NotDecimal)
    );
    assert_eq!(
        parse_poseidon_hash_from_str(
            "115792089237316195423570985008687907853269984665640564039457584007913129639936",
        ),
        Err(PubsignalsError::Overflow)
    );
}

fn generator_signals() -> Vec<String> {
    // X limbs, then Y limbs (little-endian, decimal), then the secret hash.
    vec![
        "6481385041966929816".to_string(),
        "188021827762530521".to_string(),
        "6170039885052185351".to_string(),
        "8772561819708210092".to_string(),
        "11261198710074299576".to_string(),
        "18237243440184513561".to_string(),
        "6747795201694173352".to_string(),
        "5204712524664259685".to_string(),
        "452312848583266388373324160190187140051835877600158453279131187530910675001".to_string(),
    ]
}

#[test]
fn test_parse_pubkey_from_str_vec() {
    let signals = generator_signals();
    let p = parse_pubkey_from_str_vec(&signals).unwrap();
    let g = public_of_secret(&one_key_bytes()).unwrap();
    assert_eq!(p.bytes, g.bytes);
}

#[test]
fn test_parse_pubkey_rejects_off_curve_point() {
    let mut signals = generator_signals();
    // Damaging one X limb leaves the coordinates off the curve.
    signals[0] = "6481385041966929817".to_string();
    assert_eq!(
        parse_pubkey_from_str_vec(&signals),
        Err(PubsignalsError::InvalidPoint)
    );
}

#[test]
fn test_parse_atomic_swap_proof_pubsignals() {
    let signals = generator_signals();
    let (p, h) = parse_atomic_swap_proof_pubsignals(&signals).unwrap();
    assert_eq!(p.bytes[0], 0x04);
    assert_eq!(h[0], 0x01);

    let mut eight = signals.clone();
    eight.pop();
    assert_eq!(
        parse_atomic_swap_proof_pubsignals(&eight),
        Err(PubsignalsError::WrongLayout)
    );
}
