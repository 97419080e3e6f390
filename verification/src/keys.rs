use vstd::prelude::*;

use bdk::bitcoin::secp256k1::{PublicKey, Secp256k1, SecretKey};
use std::str::FromStr;

verus! {

/// Errors of the key algebra.
#[derive(Clone, Copy, Debug, PartialEq, Eq)]
pub enum KeyError {
    /// The bytes are not a valid SEC1 point encoding.
    InvalidPoint,
    /// The bytes are not a valid secp256k1 secret scalar.
    InvalidScalar,
    /// Point addition returned the point at infinity.
    SumInfinity,
}

/// A secp256k1 point in uncompressed SEC1 form: `0x04 || X (32 BE) || Y (32 BE)`.
#[derive(Clone, Copy, Debug, PartialEq, Eq)]
pub struct UncompressedPoint {
    pub bytes: [u8; 65],
}

impl UncompressedPoint {
    pub open spec fn wf(self) -> bool {
        self.bytes@[0] == 0x04u8
    }
}

/// Whether 32 bytes are a valid secp256k1 secret scalar (nonzero, below the
/// group order). Decided by `secp256k1_ec_seckey_verify`.
pub uninterp spec fn secp_scalar_valid(k: Seq<u8>) -> bool;

/// The uncompressed SEC1 encoding of `k * G` on secp256k1, for a valid scalar
/// `k` given as 32 big-endian bytes. Computed by `PublicKey::from_secret_key`.
pub uninterp spec fn point_of_secret(k: Seq<u8>) -> Seq<u8>;

/// What `PublicKey::from_str` makes of a hex point encoding: `Some` of the
/// uncompressed SEC1 bytes of the parsed point when the hex names a valid
/// curve point, `None` otherwise.
pub uninterp spec fn point_from_hex(s: Seq<char>) -> Option<Seq<u8>>;

/// The sum of two secp256k1 points, both as uncompressed SEC1 bytes: `Some`
/// of the uncompressed sum, `None` when the bytes fail to parse as curve
/// points or the sum is the point at infinity. Computed by
/// `PublicKey::from_slice` and `PublicKey::combine`.
pub uninterp spec fn point_sum(a: Seq<u8>, b: Seq<u8>) -> Option<Seq<u8>>;

/// Relies on `rand::thread_rng` and `SecretKey::new`, which retries until
/// `secp256k1_ec_seckey_verify` accepts the drawn bytes. Nothing is promised
/// of the value beyond validity: it is random.
#[verifier::external_body]
pub fn random_secret() -> (r: [u8; 32])
    ensures
        secp_scalar_valid(r@),
{
    let sk = SecretKey::new(&mut rand::thread_rng());
    sk.secret_bytes()
}

/// Relies on `SecretKey::from_slice` (accepts exactly the valid scalars),
/// `PublicKey::from_secret_key` and `PublicKey::serialize_uncompressed`.
#[verifier::external_body]
pub fn public_of_secret(k: &[u8; 32]) -> (r: Result<UncompressedPoint, KeyError>)
    ensures
        r is Ok <==> secp_scalar_valid(k@),
        r is Ok ==> r->Ok_0.bytes@ == point_of_secret(k@) && r->Ok_0.wf(),
{
    let sk = SecretKey::from_slice(k).map_err(|_e| KeyError::InvalidScalar)?;
    let secp = Secp256k1::new();
    let pk = PublicKey::from_secret_key(&secp, &sk);
    Ok(UncompressedPoint { bytes: pk.serialize_uncompressed() })
}

/// Relies on `PublicKey::from_str` (hex SEC1 decoding plus curve membership)
/// and `PublicKey::serialize_uncompressed`.
#[verifier::external_body]
pub(crate) fn parse_point_hex(s: &str) -> (r: Result<UncompressedPoint, KeyError>)
    ensures
        r is Ok <==> point_from_hex(s@) is Some,
        r is Ok ==> Some(r->Ok_0.bytes@) == point_from_hex(s@) && r->Ok_0.wf(),
{
    let pk = PublicKey::from_str(s).map_err(|_e| KeyError::InvalidPoint)?;
    Ok(UncompressedPoint { bytes: pk.serialize_uncompressed() })
}

/// Relies on `PublicKey::from_slice` (curve-checked parsing),
/// `PublicKey::combine` (errors on the point at infinity) and
/// `serialize_uncompressed`.
#[verifier::external_body]
pub fn combine_points(a: &UncompressedPoint, b: &UncompressedPoint) -> (r: Result<
    UncompressedPoint,
    KeyError,
>)
    requires
        a.wf(),
        b.wf(),
    ensures
        r is Ok <==> point_sum(a.bytes@, b.bytes@) is Some,
        r is Ok ==> Some(r->Ok_0.bytes@) == point_sum(a.bytes@, b.bytes@) && r->Ok_0.wf(),
{
    let pa = PublicKey::from_slice(&a.bytes).map_err(|_e| KeyError::InvalidPoint)?;
    let pb = PublicKey::from_slice(&b.bytes).map_err(|_e| KeyError::InvalidPoint)?;
    let sum = pa.combine(&pb).map_err(|_e| KeyError::SumInfinity)?;
    Ok(UncompressedPoint { bytes: sum.serialize_uncompressed() })
}

/// The lowercase hex digit for a nibble.
pub open spec fn hex_char_of(n: u8) -> char
    recommends
        n < 16,
{
    if n < 10 {
        ((0x30 + n) as u8) as char
    } else {
        ((0x57 + n) as u8) as char
    }
}

/// Lowercase hex encoding: two digits per byte, bytes in order.
pub open spec fn hex_of(b: Seq<u8>) -> Seq<char>
    decreases b.len(),
{
    if b.len() == 0 {
        Seq::empty()
    } else {
        hex_of(b.drop_last()) + seq![
            hex_char_of(b.last() / 16),
            hex_char_of(b.last() % 16),
        ]
    }
}

/// Relies on `hex::encode`: lowercase hex, two digits for each byte, in byte order.
#[verifier::external_body]
pub(crate) fn hex_encode(b: &[u8]) -> (r: String)
    ensures
        r@ == hex_of(b@),
{
    hex::encode(b)
}

impl UncompressedPoint {
    /// Assembles a point encoding from its 32-byte big-endian coordinates.
    pub fn from_coordinates(x: &[u8], y: &[u8]) -> (r: UncompressedPoint)
        requires
            x@.len() == 32,
            y@.len() == 32,
        ensures
            r.bytes@ == seq![0x04u8] + x@ + y@,
            r.wf(),
    {
        let mut bytes: [u8; 65] = [0; 65];
        bytes[0] = 0x04;
        for i in 0..32
            invariant
                x@.len() == 32,
                y@.len() == 32,
                bytes@.len() == 65,
                bytes@[0] == 0x04u8,
                forall|j: int| 0 <= j < i ==> #[trigger] bytes@[1 + j] == x@[j],
        {
            bytes[1 + i] = x[i];
        }
        for i in 0..32
            invariant
                x@.len() == 32,
                y@.len() == 32,
                bytes@.len() == 65,
                bytes@[0] == 0x04u8,
                forall|j: int| 0 <= j < 32 ==> #[trigger] bytes@[1 + j] == x@[j],
                forall|j: int| 0 <= j < i ==> #[trigger] bytes@[33 + j] == y@[j],
        {
            bytes[33 + i] = y[i];
        }
        let r = UncompressedPoint { bytes };
        proof {
            let rhs = seq![0x04u8] + x@ + y@;
            assert forall|k: int| 0 <= k < 65 implies r.bytes@[k] == rhs[k] by {
                if 1 <= k < 33 {
                    assert(bytes@[1 + (k - 1)] == x@[k - 1]);
                } else if 33 <= k {
                    assert(bytes@[33 + (k - 33)] == y@[k - 33]);
                }
            }
            assert(r.bytes@ =~= rhs);
        }
        r
    }

    /// The compressed SEC1 form: parity prefix from Y's lowest bit, then X.
    pub open spec fn spec_compressed(self) -> Seq<u8> {
        seq![if self.bytes@[64] % 2 == 0 { 0x02u8 } else { 0x03u8 }] + self.bytes@.subrange(1, 33)
    }

    /// Compresses the encoding: `0x02/0x03 (Y parity) || X (32 BE)`.
    pub fn compressed(&self) -> (r: Vec<u8>)
        ensures
            r@ == self.spec_compressed(),
            r@.len() == 33,
    {
        let mut v: Vec<u8> = Vec::new();
        if self.bytes[64] % 2 == 0 {
            v.push(0x02);
        } else {
            v.push(0x03);
        }
        for i in 0..32
            invariant
                v@.len() == 1 + i,
                v@[0] == (if self.bytes@[64] % 2 == 0 {
                    0x02u8
                } else {
                    0x03u8
                }),
                forall|j: int| 0 <= j < i ==> #[trigger] v@[1 + j] == self.bytes@[1 + j],
        {
            v.push(self.bytes[1 + i]);
        }
        proof {
            let rhs = self.spec_compressed();
            assert forall|k: int| 0 <= k < 33 implies v@[k] == rhs[k] by {
                if 1 <= k {
                    assert(v@[1 + (k - 1)] == self.bytes@[1 + (k - 1)]);
                }
            }
            assert(v@ =~= rhs);
        }
        v
    }

    /// The X coordinate as 32 big-endian bytes.
    pub fn x_bytes(&self) -> (r: Vec<u8>)
        ensures
            r@ == self.bytes@.subrange(1, 33),
            r@.len() == 32,
    {
        let mut v: Vec<u8> = Vec::new();
        for i in 0..32
            invariant
                v@.len() == i,
                forall|j: int| 0 <= j < i ==> #[trigger] v@[j] == self.bytes@[1 + j],
        {
            v.push(self.bytes[1 + i]);
        }
        proof {
            assert(v@ =~= self.bytes@.subrange(1, 33));
        }
        v
    }

    /// The lowercase hex of the compressed form, as `Display` on a secp256k1
    /// public key prints it.
    pub fn compressed_hex(&self) -> (r: String)
        ensures
            r@ == hex_of(self.spec_compressed()),
    {
        let c = self.compressed();
        hex_encode(c.as_slice())
    }

    /// The lowercase hex of the uncompressed form.
    pub fn uncompressed_hex(&self) -> (r: String)
        ensures
            r@ == hex_of(self.bytes@),
    {
        hex_encode(self.bytes.as_slice())
    }
}

} // verus!
