use vstd::prelude::*;

verus! {

use vstd::string::StringSliceAdditionalSpecFns;
use vstd::utf8::encode_utf8;
use crate::u256::{
    U256,
    CodecError,
    dec_digits,
    dec_value,
    bytes_be_value,
    limbs4_value,
    spec_be_bytes,
};
use crate::keys::{UncompressedPoint, hex_of, point_from_hex, parse_point_hex, hex_encode};

/// Index of the pubkey's X last element in the atomic-swap proof public signals.
pub const PUBSIGNALS_PUBKEY_X_END: usize = 3;

/// Index of the pubkey's Y last element in the atomic-swap proof public signals.
pub const PUBSIGNALS_PUBKEY_Y_END: usize = 7;

/// Index of the secret hash in the atomic-swap proof public signals.
pub const PUBSIGNALS_SECRET_HASH_INDEX: usize = 8;

/// Number of public signals the circuit emits: four limbs of each pubkey
/// coordinate, then the secret hash.
pub const PUBSIGNALS_LEN: usize = 9;

/// Errors of the public-signals layer.
#[derive(Clone, Copy, Debug, PartialEq, Eq)]
pub enum PubsignalsError {
    /// The signal list or a scalar group has the wrong number of entries.
    WrongLayout,
    /// A signal is not a plain decimal digit string.
    NotDecimal,
    /// A signal exceeds the range its position allows.
    Overflow,
    /// The recomposed coordinates are not a point on secp256k1.
    InvalidPoint,
}

/// The UTF-8 bytes of an owned string.
pub open spec fn string_bytes(s: String) -> Seq<u8> {
    encode_utf8(s@)
}

/// Whether a string is a decimal numeral for a value below 2^64.
pub open spec fn is_u64_numeral(s: String) -> bool {
    string_bytes(s).len() > 0 && dec_digits(string_bytes(s)) && dec_value(string_bytes(s))
        < 0x1_0000_0000_0000_0000
}

/// Why a string fails as a 64-bit limb numeral, or `None` when it passes.
pub open spec fn u64_numeral_err(s: String) -> Option<PubsignalsError> {
    if is_u64_numeral(s) {
        None
    } else if string_bytes(s).len() == 0 || !dec_digits(string_bytes(s)) {
        Some(PubsignalsError::NotDecimal)
    } else {
        Some(PubsignalsError::Overflow)
    }
}

/// Whether four strings are decimal little-endian base-2^64 limbs of a scalar.
pub open spec fn is_scalar_group(raw: Seq<String>) -> bool {
    raw.len() == 4 && forall|i: int| 0 <= i < 4 ==> is_u64_numeral(#[trigger] raw[i])
}

/// The first failure of a four-limb group, in reading order, or `None`.
pub open spec fn scalar_group_err(raw: Seq<String>) -> Option<PubsignalsError> {
    if raw.len() != 4 {
        Some(PubsignalsError::WrongLayout)
    } else if u64_numeral_err(raw[0]) is Some {
        u64_numeral_err(raw[0])
    } else if u64_numeral_err(raw[1]) is Some {
        u64_numeral_err(raw[1])
    } else if u64_numeral_err(raw[2]) is Some {
        u64_numeral_err(raw[2])
    } else {
        u64_numeral_err(raw[3])
    }
}

/// The value of four decimal limb strings, index 0 least significant.
pub open spec fn scalar_group_value(raw: Seq<String>) -> nat
    recommends
        is_scalar_group(raw),
{
    dec_value(string_bytes(raw[0])) + dec_value(string_bytes(raw[1])) * 0x1_0000_0000_0000_0000
        + dec_value(string_bytes(raw[2])) * 0x1_0000_0000_0000_0000_0000_0000_0000_0000nat
        + dec_value(string_bytes(raw[3]))
        * 0x1_0000_0000_0000_0000_0000_0000_0000_0000_0000_0000_0000_0000nat
}

/// Parses four decimal strings as the little-endian base-2^64 limbs of a scalar.
pub fn parse_scalar_from_str_slice(scalar_raw: &Vec<String>) -> (r: Result<U256, PubsignalsError>)
    ensures
        r is Ok <==> is_scalar_group(scalar_raw@),
        r is Ok ==> r->Ok_0@ == scalar_group_value(scalar_raw@),
        r matches Err(e) ==> Some(e) == scalar_group_err(scalar_raw@),
{
    if scalar_raw.len() != 4 {
        return Err(PubsignalsError::WrongLayout);
    }
    let mut limbs: [u64; 4] = [0; 4];
    for i in 0..4
        invariant
            scalar_raw@.len() == 4,
            limbs@.len() == 4,
            forall|j: int|
                0 <= j < i ==> is_u64_numeral(#[trigger] scalar_raw@[j]) && limbs@[j] == dec_value(
                    string_bytes(scalar_raw@[j]),
                ),
    {
        match U256::parse_u64_dec(scalar_raw[i].as_str()) {
            Ok(v) => {
                limbs[i] = v;
            },
            Err(CodecError::NotDecimal) => {
                return Err(PubsignalsError::NotDecimal);
            },
            Err(CodecError::Overflow) => {
                return Err(PubsignalsError::Overflow);
            },
        }
    }
    let r = U256 { limbs };
    proof {
        assert(r@ == limbs4_value(limbs@));
    }
    Ok(r)
}

/// Why a string fails as the hash numeral (a value below 2^256), or `None`.
pub open spec fn hash_numeral_err(b: Seq<u8>) -> Option<PubsignalsError> {
    if b.len() == 0 || !dec_digits(b) {
        Some(PubsignalsError::NotDecimal)
    } else if dec_value(b)
        >= 0x1_0000_0000_0000_0000_0000_0000_0000_0000_0000_0000_0000_0000_0000_0000_0000_0000nat {
        Some(PubsignalsError::Overflow)
    } else {
        None
    }
}

/// Parses a decimal string as the Poseidon secret hash and writes it as the
/// 32-byte big-endian hashlock word, zero-padded on the left.
pub fn parse_poseidon_hash_from_str(hash_str: &str) -> (r: Result<[u8; 32], PubsignalsError>)
    ensures
        r is Ok <==> hash_numeral_err(hash_str.spec_bytes()) is None,
        r is Ok ==> r->Ok_0@ == spec_be_bytes(dec_value(hash_str.spec_bytes()), 32),
        r is Ok ==> bytes_be_value(r->Ok_0@) == dec_value(hash_str.spec_bytes()),
        r matches Err(e) ==> Some(e) == hash_numeral_err(hash_str.spec_bytes()),
{
    let v = match U256::from_dec_str(hash_str) {
        Ok(v) => v,
        Err(CodecError::NotDecimal) => {
            return Err(PubsignalsError::NotDecimal);
        },
        Err(CodecError::Overflow) => {
            return Err(PubsignalsError::Overflow);
        },
    };
    let bytes = v.to_be_bytes32();
    let mut out: [u8; 32] = [0; 32];
    for i in 0..32
        invariant
            bytes@.len() == 32,
            out@.len() == 32,
            forall|j: int| 0 <= j < i ==> out@[j] == bytes@[j],
    {
        out[i] = bytes[i];
    }
    proof {
        assert(out@ =~= bytes@);
    }
    Ok(out)
}

/// The SEC1 bytes described by X and Y values: `0x04 || X (32 BE) || Y (32 BE)`.
pub open spec fn spec_pubkey_bytes(xv: nat, yv: nat) -> Seq<u8> {
    seq![0x04u8] + spec_be_bytes(xv, 32) + spec_be_bytes(yv, 32)
}

/// Whether the first eight signals recompose to a point on the curve.
pub open spec fn is_pubkey_signals(signals: Seq<String>) -> bool {
    &&& signals.len() >= 8
    &&& is_scalar_group(signals.subrange(0, 4))
    &&& is_scalar_group(signals.subrange(4, 8))
    &&& point_from_hex(
        hex_of(
            spec_pubkey_bytes(
                scalar_group_value(signals.subrange(0, 4)),
                scalar_group_value(signals.subrange(4, 8)),
            ),
        ),
    ) is Some
}

/// The first failure of the pubkey signals, in reading order, or `None`.
pub open spec fn pubkey_signals_err(signals: Seq<String>) -> Option<PubsignalsError> {
    if signals.len() < 8 {
        Some(PubsignalsError::WrongLayout)
    } else if scalar_group_err(signals.subrange(0, 4)) is Some {
        scalar_group_err(signals.subrange(0, 4))
    } else if scalar_group_err(signals.subrange(4, 8)) is Some {
        scalar_group_err(signals.subrange(4, 8))
    } else if point_from_hex(
        hex_of(
            spec_pubkey_bytes(
                scalar_group_value(signals.subrange(0, 4)),
                scalar_group_value(signals.subrange(4, 8)),
            ),
        ),
    ) is None {
        Some(PubsignalsError::InvalidPoint)
    } else {
        None
    }
}

/// A group whose limbs all pass has no failure.
proof fn lemma_scalar_group_ok(raw: Seq<String>)
    requires
        is_scalar_group(raw),
    ensures
        scalar_group_err(raw) is None,
{
    assert(is_u64_numeral(raw[0]) && is_u64_numeral(raw[1]) && is_u64_numeral(raw[2])
        && is_u64_numeral(raw[3]));
}

/// Recomposes the swap public key from the first eight public signals
/// (X limbs then Y limbs), hex-encodes the SEC1 form and parses it on the curve.
pub fn parse_pubkey_from_str_vec(pubsignals: &Vec<String>) -> (r: Result<
    UncompressedPoint,
    PubsignalsError,
>)
    ensures
        r is Ok <==> is_pubkey_signals(pubsignals@),
        r is Ok ==> Some(r->Ok_0.bytes@) == point_from_hex(
            hex_of(
                spec_pubkey_bytes(
                    scalar_group_value(pubsignals@.subrange(0, 4)),
                    scalar_group_value(pubsignals@.subrange(4, 8)),
                ),
            ),
        ) && r->Ok_0.wf(),
        r matches Err(e) ==> Some(e) == pubkey_signals_err(pubsignals@),
{
    if pubsignals.len() < 8 {
        return Err(PubsignalsError::WrongLayout);
    }
    let mut xs: Vec<String> = Vec::new();
    let mut ys: Vec<String> = Vec::new();
    for i in 0..4
        invariant
            pubsignals@.len() >= 8,
            xs@.len() == i,
            ys@.len() == i,
            forall|j: int| 0 <= j < i ==> xs@[j] == pubsignals@[j],
            forall|j: int| 0 <= j < i ==> ys@[j] == pubsignals@[4 + j],
    {
        xs.push(pubsignals[i].clone());
        ys.push(pubsignals[4 + i].clone());
    }
    proof {
        assert(xs@ =~= pubsignals@.subrange(0, 4));
        assert(ys@ =~= pubsignals@.subrange(4, 8));
    }
    let key_x = match parse_scalar_from_str_slice(&xs) {
        Ok(v) => v,
        Err(e) => {
            return Err(e);
        },
    };
    let key_y = match parse_scalar_from_str_slice(&ys) {
        Ok(v) => v,
        Err(e) => {
            proof {
                lemma_scalar_group_ok(xs@);
            }
            return Err(e);
        },
    };
    let xb = key_x.to_be_bytes32();
    let yb = key_y.to_be_bytes32();
    let mut key_raw: Vec<u8> = Vec::new();
    key_raw.push(0x04);
    let mut i: usize = 0;
    while i < 32
        invariant
            xb@.len() == 32,
            i <= 32,
            key_raw@.len() == 1 + i,
            key_raw@[0] == 0x04u8,
            forall|j: int| 0 <= j < i ==> key_raw@[1 + j] == xb@[j],
        decreases 32 - i,
    {
        key_raw.push(xb[i]);
        i = i + 1;
    }
    let mut i: usize = 0;
    while i < 32
        invariant
            xb@.len() == 32,
            yb@.len() == 32,
            i <= 32,
            key_raw@.len() == 33 + i,
            key_raw@[0] == 0x04u8,
            forall|j: int| 0 <= j < 32 ==> key_raw@[1 + j] == xb@[j],
            forall|j: int| 0 <= j < i ==> key_raw@[33 + j] == yb@[j],
        decreases 32 - i,
    {
        key_raw.push(yb[i]);
        i = i + 1;
    }
    proof {
        let rhs = spec_pubkey_bytes(key_x@, key_y@);
        assert forall|k: int| 0 <= k < 65 implies key_raw@[k] == rhs[k] by {
            if 1 <= k < 33 {
                assert(key_raw@[1 + (k - 1)] == xb@[k - 1]);
            } else if 33 <= k {
                assert(key_raw@[33 + (k - 33)] == yb@[k - 33]);
            }
        }
        assert(key_raw@ =~= rhs);
    }
    let hex_str = hex_encode(key_raw.as_slice());
    match parse_point_hex(hex_str.as_str()) {
        Ok(p) => Ok(p),
        Err(_e) => {
            proof {
                lemma_scalar_group_ok(xs@);
                lemma_scalar_group_ok(ys@);
            }
            Err(PubsignalsError::InvalidPoint)
        },
    }
}

/// Pubkey signals that pass have no failure.
proof fn lemma_pubkey_signals_ok(signals: Seq<String>)
    requires
        is_pubkey_signals(signals),
    ensures
        pubkey_signals_err(signals) is None,
{
    lemma_scalar_group_ok(signals.subrange(0, 4));
    lemma_scalar_group_ok(signals.subrange(4, 8));
}

/// Whether nine signals carry a curve point and a hash in range.
pub open spec fn is_swap_pubsignals(signals: Seq<String>) -> bool {
    signals.len() == 9 && is_pubkey_signals(signals) && hash_numeral_err(string_bytes(signals[8]))
        is None
}

/// The first failure of the whole signal list, in reading order, or `None`.
pub open spec fn swap_pubsignals_err(signals: Seq<String>) -> Option<PubsignalsError> {
    if signals.len() != 9 {
        Some(PubsignalsError::WrongLayout)
    } else if pubkey_signals_err(signals) is Some {
        pubkey_signals_err(signals)
    } else {
        hash_numeral_err(string_bytes(signals[8]))
    }
}

/// Splits the nine public signals of an atomic-swap proof into the swap
/// public key (signals 0..=7) and the Poseidon secret hash (signal 8).
pub fn parse_atomic_swap_proof_pubsignals(pubsignals: &Vec<String>) -> (r: Result<
    (UncompressedPoint, [u8; 32]),
    PubsignalsError,
>)
    ensures
        r is Ok <==> is_swap_pubsignals(pubsignals@),
        r is Ok ==> {
            let xs = pubsignals@.subrange(0, 4);
            let ys = pubsignals@.subrange(4, 8);
            let hb = string_bytes(pubsignals@[8]);
            &&& Some(r->Ok_0.0.bytes@) == point_from_hex(
                hex_of(spec_pubkey_bytes(scalar_group_value(xs), scalar_group_value(ys))),
            )
            &&& r->Ok_0.0.wf()
            &&& r->Ok_0.1@ == spec_be_bytes(dec_value(hb), 32)
            &&& bytes_be_value(r->Ok_0.1@) == dec_value(hb)
        },
        r matches Err(e) ==> Some(e) == swap_pubsignals_err(pubsignals@),
{
    if pubsignals.len() != 9 {
        return Err(PubsignalsError::WrongLayout);
    }
    let pubkey = match parse_pubkey_from_str_vec(pubsignals) {
        Ok(p) => p,
        Err(e) => {
            return Err(e);
        },
    };
    let hash = match parse_poseidon_hash_from_str(pubsignals[8].as_str()) {
        Ok(h) => h,
        Err(e) => {
            proof {
                lemma_pubkey_signals_ok(pubsignals@);
            }
            return Err(e);
        },
    };
    Ok((pubkey, hash))
}

} // verus!
