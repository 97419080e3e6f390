use vstd::prelude::*;

use ark_crypto_primitives::snark::SNARK;
use ark_serialize::CanonicalDeserialize;

verus! {

use vstd::utf8::encode_utf8;
use crate::u256::{U256, CodecError, dec_digits, dec_value, spec_be_bytes};

/// Errors of the proof verifier, by stage.
#[derive(Clone, Copy, Debug, PartialEq, Eq)]
pub enum VerifierError {
    /// The JSON failed to decode or had the wrong shape.
    Serde,
    /// A coordinate string is not a decimal numeral in its field's range.
    ParsePoints,
    /// The pairing-domain check rejected the material: a point off the curve
    /// or outside its subgroup, or a key not matching the signal count.
    VerifyProof,
}

/// The proof JSON's raw shape: point coordinates as decimal strings.
#[derive(Clone, Debug, PartialEq, Eq)]
pub struct ZkProofIntermidiateRepr {
    pub pi_a: Vec<String>,
    pub pi_b: Vec<Vec<String>>,
    pub pi_c: Vec<String>,
}

/// The verification-key JSON's raw shape.
#[derive(Clone, Debug, PartialEq, Eq)]
pub struct VerificationKeyIntermidiateRepr {
    pub vk_alpha_1: Vec<String>,
    pub vk_beta_2: Vec<Vec<String>>,
    pub vk_gamma_2: Vec<Vec<String>>,
    pub vk_delta_2: Vec<Vec<String>>,
    pub ic: Vec<Vec<String>>,
}

/// What `serde_json` decodes a `["...", ...]` document to, `None` on any
/// failure. The decoding is a function of the bytes alone.
pub uninterp spec fn json_string_array_of(src: Seq<u8>) -> Option<Seq<Seq<char>>>;

/// What `serde_json` finds under `pi_a`, `pi_b`, `pi_c` of a proof document.
pub uninterp spec fn json_proof_repr_of(src: Seq<u8>) -> Option<
    (Seq<Seq<char>>, Seq<Seq<Seq<char>>>, Seq<Seq<char>>),
>;

/// What `serde_json` finds under `vk_alpha_1`, `vk_beta_2`, `vk_gamma_2`,
/// `vk_delta_2` and `IC` of a verification-key document.
pub uninterp spec fn json_vk_repr_of(src: Seq<u8>) -> Option<
    (
        Seq<Seq<char>>,
        Seq<Seq<Seq<char>>>,
        Seq<Seq<Seq<char>>>,
        Seq<Seq<Seq<char>>>,
        Seq<Seq<Seq<char>>>,
    ),
>;

/// Relies on `serde_json::from_slice::<Vec<String>>`.
#[verifier::external_body]
fn json_parse_string_array(src: &[u8]) -> (r: Option<Vec<String>>)
    ensures
        r is Some <==> json_string_array_of(src@) is Some,
        r matches Some(v) ==> Some(v.deep_view()) == json_string_array_of(src@),
{
    serde_json::from_slice::<Vec<String>>(src).ok()
}

/// Relies on `serde_json::from_slice::<Value>`, `Value::get` and
/// `serde_json::from_value` for the three proof fields.
#[verifier::external_body]
fn json_parse_proof(src: &[u8]) -> (r: Option<(Vec<String>, Vec<Vec<String>>, Vec<String>)>)
    ensures
        r is Some <==> json_proof_repr_of(src@) is Some,
        r matches Some(v) ==> Some((v.0.deep_view(), v.1.deep_view(), v.2.deep_view()))
            == json_proof_repr_of(src@),
{
    let v: serde_json::Value = serde_json::from_slice(src).ok()?;
    let a: Vec<String> = serde_json::from_value(v.get("pi_a")?.clone()).ok()?;
    let b: Vec<Vec<String>> = serde_json::from_value(v.get("pi_b")?.clone()).ok()?;
    let c: Vec<String> = serde_json::from_value(v.get("pi_c")?.clone()).ok()?;
    Some((a, b, c))
}

/// Relies on `serde_json::from_slice::<Value>`, `Value::get` and
/// `serde_json::from_value` for the five verification-key fields.
#[verifier::external_body]
fn json_parse_vk(src: &[u8]) -> (r: Option<
    (Vec<String>, Vec<Vec<String>>, Vec<Vec<String>>, Vec<Vec<String>>, Vec<Vec<String>>),
>)
    ensures
        r is Some <==> json_vk_repr_of(src@) is Some,
        r matches Some(v) ==> Some(
            (
                v.0.deep_view(),
                v.1.deep_view(),
                v.2.deep_view(),
                v.3.deep_view(),
                v.4.deep_view(),
            ),
        ) == json_vk_repr_of(src@),
{
    let v: serde_json::Value = serde_json::from_slice(src).ok()?;
    let alpha: Vec<String> = serde_json::from_value(v.get("vk_alpha_1")?.clone()).ok()?;
    let beta: Vec<Vec<String>> = serde_json::from_value(v.get("vk_beta_2")?.clone()).ok()?;
    let gamma: Vec<Vec<String>> = serde_json::from_value(v.get("vk_gamma_2")?.clone()).ok()?;
    let delta: Vec<Vec<String>> = serde_json::from_value(v.get("vk_delta_2")?.clone()).ok()?;
    let ic: Vec<Vec<String>> = serde_json::from_value(v.get("IC")?.clone()).ok()?;
    Some((alpha, beta, gamma, delta, ic))
}

impl ZkProofIntermidiateRepr {
    /// Decodes the proof JSON into its raw string shape.
    pub fn from_json(src: &[u8]) -> (r: Result<ZkProofIntermidiateRepr, VerifierError>)
        ensures
            r is Ok <==> json_proof_repr_of(src@) is Some,
            r matches Ok(p) ==> Some((p.pi_a.deep_view(), p.pi_b.deep_view(), p.pi_c.deep_view()))
                == json_proof_repr_of(src@),
            r is Err ==> r == Err::<ZkProofIntermidiateRepr, VerifierError>(VerifierError::Serde),
    {
        match json_parse_proof(src) {
            Some((pi_a, pi_b, pi_c)) => Ok(ZkProofIntermidiateRepr { pi_a, pi_b, pi_c }),
            None => Err(VerifierError::Serde),
        }
    }
}

impl VerificationKeyIntermidiateRepr {
    /// Decodes the verification-key JSON into its raw string shape.
    pub fn from_json(src: &[u8]) -> (r: Result<VerificationKeyIntermidiateRepr, VerifierError>)
        ensures
            r is Ok <==> json_vk_repr_of(src@) is Some,
            r matches Ok(p) ==> Some(
                (
                    p.vk_alpha_1.deep_view(),
                    p.vk_beta_2.deep_view(),
                    p.vk_gamma_2.deep_view(),
                    p.vk_delta_2.deep_view(),
                    p.ic.deep_view(),
                ),
            ) == json_vk_repr_of(src@),
            r is Err ==> r == Err::<VerificationKeyIntermidiateRepr, VerifierError>(
                VerifierError::Serde,
            ),
    {
        match json_parse_vk(src) {
            Some((vk_alpha_1, vk_beta_2, vk_gamma_2, vk_delta_2, ic)) => Ok(
                VerificationKeyIntermidiateRepr { vk_alpha_1, vk_beta_2, vk_gamma_2, vk_delta_2, ic },
            ),
            None => Err(VerifierError::Serde),
        }
    }
}

/// The BN254 base field modulus.
pub open spec fn bn254_base_modulus() -> nat {
    21888242871839275222246405745257275088696311157297823662689037894645226208583nat
}

/// The BN254 scalar field modulus.
pub open spec fn bn254_scalar_modulus() -> nat {
    21888242871839275222246405745257275088548364400416034343698204186575808495617nat
}

/// The base field modulus in limb form.
pub fn bn254_base_modulus_u256() -> (r: U256)
    ensures
        r@ == bn254_base_modulus(),
{
    U256 {
        limbs: [
            4332616871279656263,
            10917124144477883021,
            13281191951274694749,
            3486998266802970665,
        ],
    }
}

/// The scalar field modulus in limb form.
pub fn bn254_scalar_modulus_u256() -> (r: U256)
    ensures
        r@ == bn254_scalar_modulus(),
{
    U256 {
        limbs: [
            4891460686036598785,
            2896914383306846353,
            13281191951274694749,
            3486998266802970665,
        ],
    }
}

/// The decimal value of a string, by characters.
#[verifier::opaque]
pub open spec fn dec_of(s: Seq<char>) -> nat {
    dec_value(encode_utf8(s))
}

/// Whether a string is a decimal numeral below `m`.
#[verifier::opaque]
pub open spec fn is_numeral_below(s: Seq<char>, m: nat) -> bool {
    encode_utf8(s).len() > 0 && dec_digits(encode_utf8(s)) && dec_of(s) < m
}

/// Parses a decimal base-field coordinate: a canonical value below the modulus.
fn parse_fq(s: &str) -> (r: Result<U256, VerifierError>)
    ensures
        r is Ok <==> is_numeral_below(s@, bn254_base_modulus()),
        r matches Ok(v) ==> v@ == dec_of(s@),
        r is Err ==> r == Err::<U256, VerifierError>(VerifierError::ParsePoints),
{
    proof {
        reveal(is_numeral_below);
        reveal(dec_of);
    }
    match U256::from_dec_str(s) {
        Ok(v) => {
            let q = bn254_base_modulus_u256();
            if v.lt(&q) {
                Ok(v)
            } else {
                Err(VerifierError::ParsePoints)
            }
        },
        Err(_) => Err(VerifierError::ParsePoints),
    }
}

/// Parses a decimal scalar: a canonical value below the scalar modulus.
fn parse_fr(s: &str) -> (r: Result<U256, VerifierError>)
    ensures
        r is Ok <==> is_numeral_below(s@, bn254_scalar_modulus()),
        r matches Ok(v) ==> v@ == dec_of(s@),
        r is Err ==> r == Err::<U256, VerifierError>(VerifierError::ParsePoints),
{
    proof {
        reveal(is_numeral_below);
        reveal(dec_of);
    }
    match U256::from_dec_str(s) {
        Ok(v) => {
            let m = bn254_scalar_modulus_u256();
            if v.lt(&m) {
                Ok(v)
            } else {
                Err(VerifierError::ParsePoints)
            }
        },
        Err(_) => Err(VerifierError::ParsePoints),
    }
}

/// An affine BN254 G1 point, coordinates canonical below the base modulus.
#[derive(Clone, Copy, Debug, PartialEq, Eq)]
pub struct G1Data {
    pub x: U256,
    pub y: U256,
}

/// An affine BN254 G2 point; each coordinate is a quadratic-extension pair.
#[derive(Clone, Copy, Debug, PartialEq, Eq)]
pub struct G2Data {
    pub x_c0: U256,
    pub x_c1: U256,
    pub y_c0: U256,
    pub y_c1: U256,
}

/// A parsed Groth16 proof over BN254.
#[derive(Clone, Copy, Debug, PartialEq, Eq)]
pub struct ZkProof {
    pub a: G1Data,
    pub b: G2Data,
    pub c: G1Data,
}

/// A parsed Groth16 verification key over BN254.
#[derive(Clone, Debug, PartialEq, Eq)]
pub struct VerificationKey {
    pub alpha_g1: G1Data,
    pub beta_g2: G2Data,
    pub gamma_g2: G2Data,
    pub delta_g2: G2Data,
    pub gamma_abc_g1: Vec<G1Data>,
}

/// Whether three decimal strings are a G1 point in the JSON convention
/// `[X, Y, Z]`: Z is carried but ignored, affine assumed.
pub open spec fn is_g1_repr(v: Seq<Seq<char>>) -> bool {
    v.len() == 3 && is_numeral_below(v[0], bn254_base_modulus()) && is_numeral_below(
        v[1],
        bn254_base_modulus(),
    )
}

pub open spec fn g1_of_repr(v: Seq<Seq<char>>) -> (nat, nat)
    recommends
        is_g1_repr(v),
{
    (dec_of(v[0]), dec_of(v[1]))
}

/// Whether string pairs are a G2 point in the JSON convention
/// `[[X.c0, X.c1], [Y.c0, Y.c1], [Z...]]`: Z is carried but ignored.
pub open spec fn is_g2_repr(v: Seq<Seq<Seq<char>>>) -> bool {
    v.len() == 3 && v[0].len() == 2 && v[1].len() == 2 && is_numeral_below(
        v[0][0],
        bn254_base_modulus(),
    ) && is_numeral_below(v[0][1], bn254_base_modulus()) && is_numeral_below(
        v[1][0],
        bn254_base_modulus(),
    ) && is_numeral_below(v[1][1], bn254_base_modulus())
}

pub open spec fn g2_of_repr(v: Seq<Seq<Seq<char>>>) -> (nat, nat, nat, nat)
    recommends
        is_g2_repr(v),
{
    (dec_of(v[0][0]), dec_of(v[0][1]), dec_of(v[1][0]), dec_of(v[1][1]))
}

pub open spec fn g1_data_is(g: G1Data, v: (nat, nat)) -> bool {
    g.x@ == v.0 && g.y@ == v.1
}

pub open spec fn g2_data_is(g: G2Data, v: (nat, nat, nat, nat)) -> bool {
    g.x_c0@ == v.0 && g.x_c1@ == v.1 && g.y_c0@ == v.2 && g.y_c1@ == v.3
}

/// Why three strings fail as a G1 point, or `None` when they pass: the shape
/// is a JSON matter, a coordinate out of its field is a point matter.
pub open spec fn g1_repr_err(v: Seq<Seq<char>>) -> Option<VerifierError> {
    if is_g1_repr(v) {
        None
    } else if v.len() != 3 {
        Some(VerifierError::Serde)
    } else {
        Some(VerifierError::ParsePoints)
    }
}

/// Why nested strings fail as a G2 point, or `None` when they pass.
pub open spec fn g2_repr_err(v: Seq<Seq<Seq<char>>>) -> Option<VerifierError> {
    if is_g2_repr(v) {
        None
    } else if !(v.len() == 3 && v[0].len() == 2 && v[1].len() == 2) {
        Some(VerifierError::Serde)
    } else {
        Some(VerifierError::ParsePoints)
    }
}

/// Parses a G1 point from its three decimal strings.
fn parse_g1(v: &Vec<String>) -> (r: Result<G1Data, VerifierError>)
    ensures
        r is Ok <==> is_g1_repr(v.deep_view()),
        r matches Ok(g) ==> g1_data_is(g, g1_of_repr(v.deep_view())),
        r matches Err(e) ==> Some(e) == g1_repr_err(v.deep_view()),
{
    if v.len() != 3 {
        return Err(VerifierError::Serde);
    }
    let x = parse_fq(v[0].as_str())?;
    let y = parse_fq(v[1].as_str())?;
    Ok(G1Data { x, y })
}

/// Parses a G2 point from its nested decimal strings.
fn parse_g2(v: &Vec<Vec<String>>) -> (r: Result<G2Data, VerifierError>)
    ensures
        r is Ok <==> is_g2_repr(v.deep_view()),
        r matches Ok(g) ==> g2_data_is(g, g2_of_repr(v.deep_view())),
        r matches Err(e) ==> Some(e) == g2_repr_err(v.deep_view()),
{
    if v.len() != 3 {
        return Err(VerifierError::Serde);
    }
    let row0 = &v[0];
    let row1 = &v[1];
    if row0.len() != 2 || row1.len() != 2 {
        return Err(VerifierError::Serde);
    }
    let x_c0 = parse_fq(row0[0].as_str())?;
    let x_c1 = parse_fq(row0[1].as_str())?;
    let y_c0 = parse_fq(row1[0].as_str())?;
    let y_c1 = parse_fq(row1[1].as_str())?;
    Ok(G2Data { x_c0, x_c1, y_c0, y_c1 })
}

/// The first failure of a proof's raw shape, in reading order, or `None`.
pub open spec fn proof_parse_err(
    t: (Seq<Seq<char>>, Seq<Seq<Seq<char>>>, Seq<Seq<char>>),
) -> Option<VerifierError> {
    if g1_repr_err(t.0) is Some {
        g1_repr_err(t.0)
    } else if g2_repr_err(t.1) is Some {
        g2_repr_err(t.1)
    } else {
        g1_repr_err(t.2)
    }
}

impl ZkProof {
    /// Parses the raw string shape into canonical field values.
    pub fn parse(repr: &ZkProofIntermidiateRepr) -> (r: Result<ZkProof, VerifierError>)
        ensures
            r is Ok <==> (is_g1_repr(repr.pi_a.deep_view()) && is_g2_repr(repr.pi_b.deep_view())
                && is_g1_repr(repr.pi_c.deep_view())),
            r matches Ok(p) ==> g1_data_is(p.a, g1_of_repr(repr.pi_a.deep_view())) && g2_data_is(
                p.b,
                g2_of_repr(repr.pi_b.deep_view()),
            ) && g1_data_is(p.c, g1_of_repr(repr.pi_c.deep_view())),
            r matches Err(e) ==> Some(e) == proof_parse_err(
                (repr.pi_a.deep_view(), repr.pi_b.deep_view(), repr.pi_c.deep_view()),
            ),
    {
        let a = parse_g1(&repr.pi_a)?;
        let b = parse_g2(&repr.pi_b)?;
        let c = parse_g1(&repr.pi_c)?;
        Ok(ZkProof { a, b, c })
    }
}

/// The first failure among the IC points, in order, or `None`.
pub open spec fn ic_repr_err(s: Seq<Seq<Seq<char>>>) -> Option<VerifierError>
    decreases s.len(),
{
    if s.len() == 0 {
        None
    } else if g1_repr_err(s.first()) is Some {
        g1_repr_err(s.first())
    } else {
        ic_repr_err(s.drop_first())
    }
}

proof fn lemma_ic_repr_err_at(s: Seq<Seq<Seq<char>>>, i: int)
    requires
        0 <= i < s.len(),
        forall|j: int| 0 <= j < i ==> is_g1_repr(#[trigger] s[j]),
        !is_g1_repr(s[i]),
    ensures
        ic_repr_err(s) == g1_repr_err(s[i]),
    decreases i,
{
    if i == 0 {
    } else {
        let s1 = s.drop_first();
        assert(forall|j: int| 0 <= j < i - 1 ==> s1[j] == s[j + 1]);
        lemma_ic_repr_err_at(s1, i - 1);
    }
}

proof fn lemma_ic_repr_err_none(s: Seq<Seq<Seq<char>>>)
    requires
        forall|j: int| 0 <= j < s.len() ==> is_g1_repr(#[trigger] s[j]),
    ensures
        ic_repr_err(s) is None,
    decreases s.len(),
{
    if s.len() > 0 {
        lemma_ic_repr_err_none(s.drop_first());
    }
}

/// The first failure of a verification key's raw shape, in reading order.
pub open spec fn vk_parse_err(
    t: (
        Seq<Seq<char>>,
        Seq<Seq<Seq<char>>>,
        Seq<Seq<Seq<char>>>,
        Seq<Seq<Seq<char>>>,
        Seq<Seq<Seq<char>>>,
    ),
) -> Option<VerifierError> {
    if g1_repr_err(t.0) is Some {
        g1_repr_err(t.0)
    } else if g2_repr_err(t.1) is Some {
        g2_repr_err(t.1)
    } else if g2_repr_err(t.2) is Some {
        g2_repr_err(t.2)
    } else if g2_repr_err(t.3) is Some {
        g2_repr_err(t.3)
    } else {
        ic_repr_err(t.4)
    }
}

impl VerificationKey {
    /// Parses the raw string shape into canonical field values.
    pub fn parse(repr: &VerificationKeyIntermidiateRepr) -> (r: Result<
        VerificationKey,
        VerifierError,
    >)
        ensures
            r is Ok <==> (is_g1_repr(repr.vk_alpha_1.deep_view()) && is_g2_repr(
                repr.vk_beta_2.deep_view(),
            ) && is_g2_repr(repr.vk_gamma_2.deep_view()) && is_g2_repr(repr.vk_delta_2.deep_view())
                && (forall|i: int|
                0 <= i < repr.ic.deep_view().len() ==> is_g1_repr(#[trigger] repr.ic.deep_view()[i]))),
            r matches Ok(k) ==> g1_data_is(k.alpha_g1, g1_of_repr(repr.vk_alpha_1.deep_view()))
                && g2_data_is(k.beta_g2, g2_of_repr(repr.vk_beta_2.deep_view())) && g2_data_is(
                k.gamma_g2,
                g2_of_repr(repr.vk_gamma_2.deep_view()),
            ) && g2_data_is(k.delta_g2, g2_of_repr(repr.vk_delta_2.deep_view()))
                && k.gamma_abc_g1@.len() == repr.ic.deep_view().len() && (forall|i: int|
                0 <= i < k.gamma_abc_g1@.len() ==> g1_data_is(
                    #[trigger] k.gamma_abc_g1@[i],
                    g1_of_repr(repr.ic.deep_view()[i]),
                )),
            r matches Err(e) ==> Some(e) == vk_parse_err(
                (
                    repr.vk_alpha_1.deep_view(),
                    repr.vk_beta_2.deep_view(),
                    repr.vk_gamma_2.deep_view(),
                    repr.vk_delta_2.deep_view(),
                    repr.ic.deep_view(),
                ),
            ),
    {
        let alpha_g1 = parse_g1(&repr.vk_alpha_1)?;
        let beta_g2 = parse_g2(&repr.vk_beta_2)?;
        let gamma_g2 = parse_g2(&repr.vk_gamma_2)?;
        let delta_g2 = parse_g2(&repr.vk_delta_2)?;
        let mut gamma_abc_g1: Vec<G1Data> = Vec::new();
        let n = repr.ic.len();
        for i in 0..n
            invariant
                n == repr.ic@.len(),
                gamma_abc_g1@.len() == i,
                is_g1_repr(repr.vk_alpha_1.deep_view()),
                is_g2_repr(repr.vk_beta_2.deep_view()),
                is_g2_repr(repr.vk_gamma_2.deep_view()),
                is_g2_repr(repr.vk_delta_2.deep_view()),
                forall|j: int| 0 <= j < i ==> is_g1_repr(#[trigger] repr.ic.deep_view()[j]),
                forall|j: int|
                    0 <= j < i ==> g1_data_is(
                        #[trigger] gamma_abc_g1@[j],
                        g1_of_repr(repr.ic.deep_view()[j]),
                    ),
        {
            let g = match parse_g1(&repr.ic[i]) {
                Ok(g) => g,
                Err(e) => {
                    proof {
                        assert(repr.ic.deep_view()[i as int] == repr.ic@[i as int].deep_view());
                        assert(!is_g1_repr(repr.ic.deep_view()[i as int]));
                        assert(repr.ic.deep_view().len() == repr.ic@.len());
                        lemma_ic_repr_err_at(repr.ic.deep_view(), i as int);
                        assert(g1_repr_err(repr.vk_alpha_1.deep_view()) is None);
                        assert(g2_repr_err(repr.vk_beta_2.deep_view()) is None);
                        assert(g2_repr_err(repr.vk_gamma_2.deep_view()) is None);
                        assert(g2_repr_err(repr.vk_delta_2.deep_view()) is None);
                    }
                    return Err(e);
                },
            };
            proof {
                assert(repr.ic.deep_view()[i as int] == repr.ic@[i as int].deep_view());
            }
            gamma_abc_g1.push(g);
        }
        Ok(VerificationKey { alpha_g1, beta_g2, gamma_g2, delta_g2, gamma_abc_g1 })
    }
}

/// Parses the public signals JSON: an ordered list of decimal scalars.
pub fn public_inputs_from_json(src: &[u8]) -> (r: Result<Vec<U256>, VerifierError>)
    ensures
        r is Ok ==> (json_string_array_of(src@) matches Some(sigs) && r->Ok_0.deep_view().len()
            == sigs.len() && (forall|i: int|
            0 <= i < sigs.len() ==> is_numeral_below(#[trigger] sigs[i], bn254_scalar_modulus())
                && r->Ok_0@[i]@ == dec_of(sigs[i]))),
        json_string_array_of(src@) is None ==> r == Err::<Vec<U256>, VerifierError>(
            VerifierError::Serde,
        ),
        json_string_array_of(src@) matches Some(sigs) ==> (r is Ok <==> forall|i: int|
            0 <= i < sigs.len() ==> #[trigger] is_numeral_below(sigs[i], bn254_scalar_modulus())),
        r matches Err(e) ==> (e == VerifierError::Serde <==> json_string_array_of(src@) is None)
            && (e == VerifierError::Serde || e == VerifierError::ParsePoints),
{
    let raw = match json_parse_string_array(src) {
        Some(v) => v,
        None => {
            return Err(VerifierError::Serde);
        },
    };
    let mut out: Vec<U256> = Vec::new();
    let n = raw.len();
    for i in 0..n
        invariant
            n == raw@.len(),
            Some(raw.deep_view()) == json_string_array_of(src@),
            out@.len() == i,
            forall|j: int|
                0 <= j < i ==> is_numeral_below(
                    #[trigger] raw.deep_view()[j],
                    bn254_scalar_modulus(),
                ) && out@[j]@ == dec_of(raw.deep_view()[j]),
    {
        let v = match parse_fr(raw[i].as_str()) {
            Ok(v) => v,
            Err(e) => {
                proof {
                    assert(raw.deep_view().len() == raw@.len());
                    assert(raw.deep_view()[i as int] == raw@[i as int]@);
                    assert(!is_numeral_below(raw.deep_view()[i as int], bn254_scalar_modulus()));
                    let sigs = json_string_array_of(src@)->Some_0;
                    assert(sigs == raw.deep_view());
                    assert(!is_numeral_below(sigs[i as int], bn254_scalar_modulus()));
                    assert(!(forall|j: int|
                        0 <= j < sigs.len() ==> #[trigger] is_numeral_below(
                            sigs[j],
                            bn254_scalar_modulus(),
                        )));
                }
                return Err(e);
            },
        };
        proof {
            assert(raw.deep_view()[i as int] == raw@[i as int]@);
        }
        out.push(v);
    }
    Ok(out)
}

} // verus!

verus! {

use vstd::slice::slice_subrange;
use vstd::utf8::valid_utf8;
use crate::u256::{lemma_spec_be_bytes_value, lemma_bytes_be_unique, lemma_pow256_32};

/// The `len`-byte little-endian encoding of `n`.
pub open spec fn spec_le_bytes(n: nat, len: nat) -> Seq<u8>
    decreases len,
{
    if len == 0 {
        Seq::empty()
    } else {
        seq![(n % 256) as u8] + spec_le_bytes(n / 256, (len - 1) as nat)
    }
}

proof fn lemma_le_is_reversed_be(n: nat, len: nat)
    ensures
        spec_le_bytes(n, len) =~= spec_be_bytes(n, len).reverse(),
        spec_le_bytes(n, len).len() == len,
    decreases len,
{
    if len > 0 {
        lemma_le_is_reversed_be(n / 256, (len - 1) as nat);
        let be = spec_be_bytes(n, len);
        let be1 = spec_be_bytes(n / 256, (len - 1) as nat);
        assert(be == be1.push((n % 256) as u8));
        assert forall|i: int| 0 <= i < len implies spec_le_bytes(n, len)[i] == be.reverse()[i] by {
            if i == 0 {
            } else {
                assert(spec_le_bytes(n, len)[i] == spec_le_bytes(n / 256, (len - 1) as nat)[i - 1]);
                assert(be1.reverse()[i - 1] == be1[be1.len() - i]);
            }
        }
    }
}

/// Appends the 32 little-endian bytes of a canonical 256-bit value.
fn push_le32(v: &mut Vec<u8>, x: &U256)
    ensures
        final(v)@ == old(v)@ + spec_le_bytes(x@, 32),
{
    let le = x.to_bytes_le();
    proof {
        lemma_pow256_32();
        lemma_spec_be_bytes_value(x@, 32);
        lemma_bytes_be_unique(le@.reverse(), spec_be_bytes(x@, 32));
        lemma_le_is_reversed_be(x@, 32);
        assert forall|i: int| 0 <= i < 32 implies le@[i] == spec_be_bytes(x@, 32).reverse()[i] by {
            assert(le@.reverse()[31 - i] == le@[i]);
            assert(spec_be_bytes(x@, 32).reverse()[i] == spec_be_bytes(x@, 32)[31 - i]);
        }
        assert(le@ =~= spec_le_bytes(x@, 32));
    }
    crate::depositor::push_bytes_pub(v, le.as_slice());
}

/// Appends the eight little-endian bytes of a length word.
pub(crate) fn push_le_u64(v: &mut Vec<u8>, l: u64)
    ensures
        final(v)@ == old(v)@ + spec_le_bytes(l as nat, 8),
{
    let b0: u8 = (l % 256) as u8;
    let l1: u64 = l / 256;
    let b1: u8 = (l1 % 256) as u8;
    let l2: u64 = l1 / 256;
    let b2: u8 = (l2 % 256) as u8;
    let l3: u64 = l2 / 256;
    let b3: u8 = (l3 % 256) as u8;
    let l4: u64 = l3 / 256;
    let b4: u8 = (l4 % 256) as u8;
    let l5: u64 = l4 / 256;
    let b5: u8 = (l5 % 256) as u8;
    let l6: u64 = l5 / 256;
    let b6: u8 = (l6 % 256) as u8;
    let l7: u64 = l6 / 256;
    let b7: u8 = (l7 % 256) as u8;
    proof {
        assert(spec_le_bytes(l as nat, 8) == seq![b0] + spec_le_bytes(l1 as nat, 7));
        assert(spec_le_bytes(l1 as nat, 7) == seq![b1] + spec_le_bytes(l2 as nat, 6));
        assert(spec_le_bytes(l2 as nat, 6) == seq![b2] + spec_le_bytes(l3 as nat, 5));
        assert(spec_le_bytes(l3 as nat, 5) == seq![b3] + spec_le_bytes(l4 as nat, 4));
        assert(spec_le_bytes(l4 as nat, 4) == seq![b4] + spec_le_bytes(l5 as nat, 3));
        assert(spec_le_bytes(l5 as nat, 3) == seq![b5] + spec_le_bytes(l6 as nat, 2));
        assert(spec_le_bytes(l6 as nat, 2) == seq![b6] + spec_le_bytes(l7 as nat, 1));
        assert(spec_le_bytes(l7 as nat, 1) == seq![b7] + spec_le_bytes((l7 as nat) / 256, 0));
        assert(spec_le_bytes(l as nat, 8) =~= seq![b0, b1, b2, b3, b4, b5, b6, b7]);
    }
    v.push(b0);
    v.push(b1);
    v.push(b2);
    v.push(b3);
    v.push(b4);
    v.push(b5);
    v.push(b6);
    v.push(b7);
    proof {
        assert(v@ =~= old(v)@ + spec_le_bytes(l as nat, 8));
    }
}

/// The uncompressed G1 form ark's deserializer reads: X then Y, 32
/// little-endian bytes each, the flag bits clear.
pub open spec fn spec_g1_ser(x: nat, y: nat) -> Seq<u8> {
    spec_le_bytes(x, 32) + spec_le_bytes(y, 32)
}

/// The uncompressed G2 form ark's deserializer reads: the four extension
/// components in order, the flag bits clear.
pub open spec fn spec_g2_ser(x0: nat, x1: nat, y0: nat, y1: nat) -> Seq<u8> {
    spec_le_bytes(x0, 32) + spec_le_bytes(x1, 32) + spec_le_bytes(y0, 32) + spec_le_bytes(y1, 32)
}

pub open spec fn spec_ic_ser(ic: Seq<G1Data>) -> Seq<u8>
    decreases ic.len(),
{
    if ic.len() == 0 {
        Seq::empty()
    } else {
        spec_ic_ser(ic.drop_last()) + spec_g1_ser(ic.last().x@, ic.last().y@)
    }
}

/// The uncompressed `VerifyingKey<Bn254>` form ark's deserializer reads: the
/// four fixed points, then the IC vector behind its little-endian length word.
pub open spec fn spec_vk_ser(k: VerificationKey) -> Seq<u8> {
    spec_g1_ser(k.alpha_g1.x@, k.alpha_g1.y@) + spec_g2_ser(
        k.beta_g2.x_c0@,
        k.beta_g2.x_c1@,
        k.beta_g2.y_c0@,
        k.beta_g2.y_c1@,
    ) + spec_g2_ser(k.gamma_g2.x_c0@, k.gamma_g2.x_c1@, k.gamma_g2.y_c0@, k.gamma_g2.y_c1@)
        + spec_g2_ser(k.delta_g2.x_c0@, k.delta_g2.x_c1@, k.delta_g2.y_c0@, k.delta_g2.y_c1@)
        + spec_le_bytes(k.gamma_abc_g1@.len(), 8) + spec_ic_ser(k.gamma_abc_g1@)
}

/// The uncompressed `Proof<Bn254>` form ark's deserializer reads.
pub open spec fn spec_proof_ser(p: ZkProof) -> Seq<u8> {
    spec_g1_ser(p.a.x@, p.a.y@) + spec_g2_ser(p.b.x_c0@, p.b.x_c1@, p.b.y_c0@, p.b.y_c1@)
        + spec_g1_ser(p.c.x@, p.c.y@)
}

pub open spec fn spec_scalars_ser(xs: Seq<U256>) -> Seq<u8>
    decreases xs.len(),
{
    if xs.len() == 0 {
        Seq::empty()
    } else {
        spec_scalars_ser(xs.drop_last()) + spec_le_bytes(xs.last()@, 32)
    }
}

/// The `Vec<Fr>` form ark's deserializer reads: length word, then the scalars.
pub open spec fn spec_inputs_ser(xs: Seq<U256>) -> Seq<u8> {
    spec_le_bytes(xs.len(), 8) + spec_scalars_ser(xs)
}

fn push_g1(v: &mut Vec<u8>, g: &G1Data)
    ensures
        final(v)@ == old(v)@ + spec_g1_ser(g.x@, g.y@),
{
    push_le32(v, &g.x);
    push_le32(v, &g.y);
    proof {
        assert(v@ =~= old(v)@ + spec_g1_ser(g.x@, g.y@));
    }
}

fn push_g2(v: &mut Vec<u8>, g: &G2Data)
    ensures
        final(v)@ == old(v)@ + spec_g2_ser(g.x_c0@, g.x_c1@, g.y_c0@, g.y_c1@),
{
    push_le32(v, &g.x_c0);
    push_le32(v, &g.x_c1);
    push_le32(v, &g.y_c0);
    push_le32(v, &g.y_c1);
    proof {
        assert(v@ =~= old(v)@ + spec_g2_ser(g.x_c0@, g.x_c1@, g.y_c0@, g.y_c1@));
    }
}

impl VerificationKey {
    /// Writes the key in ark's canonical uncompressed form.
    pub fn to_ark_bytes(&self) -> (r: Vec<u8>)
        ensures
            r@ == spec_vk_ser(*self),
    {
        let mut v: Vec<u8> = Vec::new();
        push_g1(&mut v, &self.alpha_g1);
        push_g2(&mut v, &self.beta_g2);
        push_g2(&mut v, &self.gamma_g2);
        push_g2(&mut v, &self.delta_g2);
        let n = self.gamma_abc_g1.len();
        push_le_u64(&mut v, n as u64);
        let ghost head = v@;
        for i in 0..n
            invariant
                n == self.gamma_abc_g1@.len(),
                v@ == head + spec_ic_ser(self.gamma_abc_g1@.take(i as int)),
        {
            proof {
                assert(self.gamma_abc_g1@.take(i + 1).drop_last() =~= self.gamma_abc_g1@.take(
                    i as int,
                ));
            }
            push_g1(&mut v, &self.gamma_abc_g1[i]);
        }
        proof {
            assert(self.gamma_abc_g1@.take(n as int) =~= self.gamma_abc_g1@);
            assert(v@ =~= spec_vk_ser(*self));
        }
        v
    }
}

impl ZkProof {
    /// Writes the proof in ark's canonical uncompressed form.
    pub fn to_ark_bytes(&self) -> (r: Vec<u8>)
        ensures
            r@ == spec_proof_ser(*self),
    {
        let mut v: Vec<u8> = Vec::new();
        push_g1(&mut v, &self.a);
        push_g2(&mut v, &self.b);
        push_g1(&mut v, &self.c);
        proof {
            assert(v@ =~= spec_proof_ser(*self));
        }
        v
    }
}

/// Writes the public inputs in ark's canonical `Vec<Fr>` form.
pub fn inputs_to_ark_bytes(xs: &Vec<U256>) -> (r: Vec<u8>)
    ensures
        r@ == spec_inputs_ser(xs@),
{
    let mut v: Vec<u8> = Vec::new();
    let n = xs.len();
    push_le_u64(&mut v, n as u64);
    let ghost head = v@;
    for i in 0..n
        invariant
            n == xs@.len(),
            v@ == head + spec_scalars_ser(xs@.take(i as int)),
    {
        proof {
            assert(xs@.take(i + 1).drop_last() =~= xs@.take(i as int));
        }
        push_le32(&mut v, &xs[i]);
    }
    proof {
        assert(xs@.take(n as int) =~= xs@);
        assert(v@ =~= spec_inputs_ser(xs@));
    }
    v
}

/// Whether the Groth16 pairing equation holds for a verifying key, proof and
/// public inputs, each in ark's canonical uncompressed encoding. Decided by
/// `Groth16::<Bn254>::verify_with_processed_vk`: a function of the three
/// encodings alone.
pub uninterp spec fn groth16_accepts(vk: Seq<u8>, zk_proof: Seq<u8>, inputs: Seq<u8>) -> bool;

/// Whether ark's validated uncompressed decoding accepts the three encodings
/// and the pairing machinery runs them to an answer: every point on its curve
/// and in its subgroup, every scalar canonical, the key's IC length one more
/// than the input count. Decided by the same call chain as `groth16_accepts`:
/// a function of the encodings alone.
pub uninterp spec fn ark_material_ok(vk: Seq<u8>, zk_proof: Seq<u8>, inputs: Seq<u8>) -> bool;

/// Relies on ark-serialize's validated uncompressed decoding of
/// `VerifyingKey<Bn254>`, `Proof<Bn254>` and `Vec<Fr>`, and on
/// `Groth16::<Bn254>::process_vk` and `verify_with_processed_vk`. Whether the
/// material is accepted and what the check answers are both functions of the
/// three encodings; every rejection surfaces as the pairing-domain error.
#[verifier::external_body]
fn ark_groth16_verify(vk_bytes: &[u8], proof_bytes: &[u8], input_bytes: &[u8]) -> (r: Result<
    bool,
    VerifierError,
>)
    ensures
        r is Ok <==> ark_material_ok(vk_bytes@, proof_bytes@, input_bytes@),
        r matches Ok(b) ==> b == groth16_accepts(vk_bytes@, proof_bytes@, input_bytes@),
{
    let vk = ark_groth16::VerifyingKey::<ark_bn254::Bn254>::deserialize_uncompressed(vk_bytes)
        .map_err(|_e| VerifierError::VerifyProof)?;
    let zkp = ark_groth16::Proof::<ark_bn254::Bn254>::deserialize_uncompressed(proof_bytes)
        .map_err(|_e| VerifierError::VerifyProof)?;
    let ins = Vec::<ark_bn254::Fr>::deserialize_uncompressed(input_bytes).map_err(
        |_e| VerifierError::VerifyProof,
    )?;
    let pvk = ark_groth16::Groth16::<ark_bn254::Bn254>::process_vk(&vk).map_err(
        |_e| VerifierError::VerifyProof,
    )?;
    let ok = ark_groth16::Groth16::<ark_bn254::Bn254>::verify_with_processed_vk(&pvk, &ins, &zkp)
        .map_err(|_e| VerifierError::VerifyProof)?;
    Ok(ok)
}

/// The verification-key bytes determined by a raw JSON shape.
pub open spec fn spec_ic_ser_repr(s: Seq<Seq<Seq<char>>>) -> Seq<u8>
    decreases s.len(),
{
    if s.len() == 0 {
        Seq::empty()
    } else {
        spec_ic_ser_repr(s.drop_last()) + spec_g1_ser(
            g1_of_repr(s.last()).0,
            g1_of_repr(s.last()).1,
        )
    }
}

pub open spec fn spec_vk_ser_of_repr(
    t: (
        Seq<Seq<char>>,
        Seq<Seq<Seq<char>>>,
        Seq<Seq<Seq<char>>>,
        Seq<Seq<Seq<char>>>,
        Seq<Seq<Seq<char>>>,
    ),
) -> Seq<u8> {
    spec_g1_ser(g1_of_repr(t.0).0, g1_of_repr(t.0).1) + spec_g2_ser(
        g2_of_repr(t.1).0,
        g2_of_repr(t.1).1,
        g2_of_repr(t.1).2,
        g2_of_repr(t.1).3,
    ) + spec_g2_ser(g2_of_repr(t.2).0, g2_of_repr(t.2).1, g2_of_repr(t.2).2, g2_of_repr(t.2).3)
        + spec_g2_ser(g2_of_repr(t.3).0, g2_of_repr(t.3).1, g2_of_repr(t.3).2, g2_of_repr(t.3).3)
        + spec_le_bytes(t.4.len(), 8) + spec_ic_ser_repr(t.4)
}

pub open spec fn spec_proof_ser_of_repr(
    t: (Seq<Seq<char>>, Seq<Seq<Seq<char>>>, Seq<Seq<char>>),
) -> Seq<u8> {
    spec_g1_ser(g1_of_repr(t.0).0, g1_of_repr(t.0).1) + spec_g2_ser(
        g2_of_repr(t.1).0,
        g2_of_repr(t.1).1,
        g2_of_repr(t.1).2,
        g2_of_repr(t.1).3,
    ) + spec_g1_ser(g1_of_repr(t.2).0, g1_of_repr(t.2).1)
}

pub open spec fn spec_scalars_ser_of_sigs(sigs: Seq<Seq<char>>) -> Seq<u8>
    decreases sigs.len(),
{
    if sigs.len() == 0 {
        Seq::empty()
    } else {
        spec_scalars_ser_of_sigs(sigs.drop_last()) + spec_le_bytes(dec_of(sigs.last()), 32)
    }
}

pub open spec fn spec_inputs_ser_of_sigs(sigs: Seq<Seq<char>>) -> Seq<u8> {
    spec_le_bytes(sigs.len(), 8) + spec_scalars_ser_of_sigs(sigs)
}

proof fn lemma_ic_ser_pointwise(s: Seq<G1Data>, t: Seq<Seq<Seq<char>>>)
    requires
        s.len() == t.len(),
        forall|i: int| 0 <= i < s.len() ==> g1_data_is(#[trigger] s[i], g1_of_repr(t[i])),
    ensures
        spec_ic_ser(s) == spec_ic_ser_repr(t),
    decreases s.len(),
{
    if s.len() > 0 {
        lemma_ic_ser_pointwise(s.drop_last(), t.drop_last());
    }
}

proof fn lemma_scalars_ser_pointwise(s: Seq<U256>, t: Seq<Seq<char>>)
    requires
        s.len() == t.len(),
        forall|i: int| 0 <= i < s.len() ==> (#[trigger] s[i])@ == dec_of(t[i]),
    ensures
        spec_scalars_ser(s) == spec_scalars_ser_of_sigs(t),
    decreases s.len(),
{
    if s.len() > 0 {
        lemma_scalars_ser_pointwise(s.drop_last(), t.drop_last());
    }
}

proof fn lemma_vk_ser_of_parse(
    vk: VerificationKey,
    t: (
        Seq<Seq<char>>,
        Seq<Seq<Seq<char>>>,
        Seq<Seq<Seq<char>>>,
        Seq<Seq<Seq<char>>>,
        Seq<Seq<Seq<char>>>,
    ),
)
    requires
        g1_data_is(vk.alpha_g1, g1_of_repr(t.0)),
        g2_data_is(vk.beta_g2, g2_of_repr(t.1)),
        g2_data_is(vk.gamma_g2, g2_of_repr(t.2)),
        g2_data_is(vk.delta_g2, g2_of_repr(t.3)),
        vk.gamma_abc_g1@.len() == t.4.len(),
        forall|i: int|
            0 <= i < vk.gamma_abc_g1@.len() ==> g1_data_is(
                #[trigger] vk.gamma_abc_g1@[i],
                g1_of_repr(t.4[i]),
            ),
    ensures
        spec_vk_ser(vk) == spec_vk_ser_of_repr(t),
{
    lemma_ic_ser_pointwise(vk.gamma_abc_g1@, t.4);
}

proof fn lemma_proof_ser_of_parse(
    p: ZkProof,
    t: (Seq<Seq<char>>, Seq<Seq<Seq<char>>>, Seq<Seq<char>>),
)
    requires
        g1_data_is(p.a, g1_of_repr(t.0)),
        g2_data_is(p.b, g2_of_repr(t.1)),
        g1_data_is(p.c, g1_of_repr(t.2)),
    ensures
        spec_proof_ser(p) == spec_proof_ser_of_repr(t),
{
}

proof fn lemma_inputs_ser_of_parse(s: Seq<U256>, sigs: Seq<Seq<char>>)
    requires
        s.len() == sigs.len(),
        forall|i: int| 0 <= i < s.len() ==> (#[trigger] s[i])@ == dec_of(sigs[i]),
    ensures
        spec_inputs_ser(s) == spec_inputs_ser_of_sigs(sigs),
{
    lemma_scalars_ser_pointwise(s, sigs);
}

/// Serializes parsed material into ark's canonical form and runs the check.
fn verify_parsed(vk: &VerificationKey, zk_proof: &ZkProof, inputs: &Vec<U256>) -> (r: Result<
    bool,
    VerifierError,
>)
    ensures
        r is Ok <==> ark_material_ok(
            spec_vk_ser(*vk),
            spec_proof_ser(*zk_proof),
            spec_inputs_ser(inputs@),
        ),
        r matches Ok(b) ==> b == groth16_accepts(
            spec_vk_ser(*vk),
            spec_proof_ser(*zk_proof),
            spec_inputs_ser(inputs@),
        ),
        r is Err ==> r == Err::<bool, VerifierError>(VerifierError::VerifyProof),
{
    let vk_bytes = vk.to_ark_bytes();
    let proof_bytes = zk_proof.to_ark_bytes();
    let input_bytes = inputs_to_ark_bytes(inputs);
    match ark_groth16_verify(vk_bytes.as_slice(), proof_bytes.as_slice(), input_bytes.as_slice()) {
        Ok(b) => Ok(b),
        Err(_e) => Err(VerifierError::VerifyProof),
    }
}

/// A proof shape whose three points pass has no failure.
proof fn lemma_proof_parse_ok(t: (Seq<Seq<char>>, Seq<Seq<Seq<char>>>, Seq<Seq<char>>))
    requires
        is_g1_repr(t.0),
        is_g2_repr(t.1),
        is_g1_repr(t.2),
    ensures
        proof_parse_err(t) is None,
{
}

/// A key shape whose points all pass has no failure.
proof fn lemma_vk_parse_ok(
    t: (
        Seq<Seq<char>>,
        Seq<Seq<Seq<char>>>,
        Seq<Seq<Seq<char>>>,
        Seq<Seq<Seq<char>>>,
        Seq<Seq<Seq<char>>>,
    ),
)
    requires
        is_g1_repr(t.0),
        is_g2_repr(t.1),
        is_g2_repr(t.2),
        is_g2_repr(t.3),
        forall|i: int| 0 <= i < t.4.len() ==> is_g1_repr(#[trigger] t.4[i]),
    ensures
        vk_parse_err(t) is None,
{
    lemma_ic_repr_err_none(t.4);
}

/// Whether the decoded signals are all scalars in range.
pub open spec fn sigs_in_range(sigs: Seq<Seq<char>>) -> bool {
    forall|i: int| 0 <= i < sigs.len() ==> #[trigger] is_numeral_below(
        sigs[i],
        bn254_scalar_modulus(),
    )
}

/// The stage at which the verifier rejects the three documents, in working
/// order — decode and parse the proof, decode and parse the key, decode and
/// parse the signals, match the key to the signal count, hand the encodings
/// to the pairing machinery — or `None` when the check runs to an answer.
pub open spec fn spec_verifier_error(vk_src: Seq<u8>, proof_src: Seq<u8>, sigs_src: Seq<u8>) -> Option<
    VerifierError,
> {
    if json_proof_repr_of(proof_src) is None {
        Some(VerifierError::Serde)
    } else if proof_parse_err(json_proof_repr_of(proof_src)->Some_0) is Some {
        proof_parse_err(json_proof_repr_of(proof_src)->Some_0)
    } else if json_vk_repr_of(vk_src) is None {
        Some(VerifierError::Serde)
    } else if vk_parse_err(json_vk_repr_of(vk_src)->Some_0) is Some {
        vk_parse_err(json_vk_repr_of(vk_src)->Some_0)
    } else if json_string_array_of(sigs_src) is None {
        Some(VerifierError::Serde)
    } else if !sigs_in_range(json_string_array_of(sigs_src)->Some_0) {
        Some(VerifierError::ParsePoints)
    } else if json_vk_repr_of(vk_src)->Some_0.4.len() != json_string_array_of(sigs_src)->Some_0.len()
        + 1 {
        Some(VerifierError::VerifyProof)
    } else if !ark_material_ok(
        spec_vk_ser_of_repr(json_vk_repr_of(vk_src)->Some_0),
        spec_proof_ser_of_repr(json_proof_repr_of(proof_src)->Some_0),
        spec_inputs_ser_of_sigs(json_string_array_of(sigs_src)->Some_0),
    ) {
        Some(VerifierError::VerifyProof)
    } else {
        None
    }
}

/// Parses the verification key, proof and public signals from their JSON
/// forms and checks the Groth16 pairing equation over BN254. Succeeds exactly
/// when every stage passes, `Ok(b)` then reporting the pairing check on the
/// material the three documents describe; otherwise the first failing stage's
/// error comes back.
#[verifier::rlimit(100)]
#[verifier::spinoff_prover]
pub fn groth16_verifier(
    verification_key_json: &[u8],
    proof_json: &[u8],
    public_inputs_json: &[u8],
) -> (r: Result<bool, VerifierError>)
    ensures
        r is Ok <==> spec_verifier_error(verification_key_json@, proof_json@, public_inputs_json@)
            is None,
        r matches Err(e) ==> Some(e) == spec_verifier_error(
            verification_key_json@,
            proof_json@,
            public_inputs_json@,
        ),
        r matches Ok(b) ==> ({
            &&& json_vk_repr_of(verification_key_json@) matches Some(vkt) && b == groth16_accepts(
                spec_vk_ser_of_repr(vkt),
                spec_proof_ser_of_repr(json_proof_repr_of(proof_json@)->Some_0),
                spec_inputs_ser_of_sigs(json_string_array_of(public_inputs_json@)->Some_0),
            ) && json_string_array_of(public_inputs_json@)->Some_0.len() + 1 == vkt.4.len()
            &&& json_proof_repr_of(proof_json@) is Some
            &&& json_string_array_of(public_inputs_json@) is Some
        }),
{
    let proof_repr = match ZkProofIntermidiateRepr::from_json(proof_json) {
        Ok(v) => v,
        Err(e) => {
            return Err(e);
        },
    };
    let ghost pt = json_proof_repr_of(proof_json@)->Some_0;
    proof {
        assert(pt.0 == proof_repr.pi_a.deep_view() && pt.1 == proof_repr.pi_b.deep_view() && pt.2
            == proof_repr.pi_c.deep_view());
    }
    let zk_proof = match ZkProof::parse(&proof_repr) {
        Ok(v) => v,
        Err(e) => {
            return Err(e);
        },
    };
    proof {
        lemma_proof_parse_ok(pt);
    }
    let vk_repr = match VerificationKeyIntermidiateRepr::from_json(verification_key_json) {
        Ok(v) => v,
        Err(e) => {
            return Err(e);
        },
    };
    let ghost vkt = json_vk_repr_of(verification_key_json@)->Some_0;
    proof {
        assert(vkt.0 == vk_repr.vk_alpha_1.deep_view() && vkt.1 == vk_repr.vk_beta_2.deep_view()
            && vkt.2 == vk_repr.vk_gamma_2.deep_view() && vkt.3 == vk_repr.vk_delta_2.deep_view()
            && vkt.4 == vk_repr.ic.deep_view());
    }
    let vk = match VerificationKey::parse(&vk_repr) {
        Ok(v) => v,
        Err(e) => {
            return Err(e);
        },
    };
    proof {
        lemma_vk_parse_ok(vkt);
    }
    let inputs = match public_inputs_from_json(public_inputs_json) {
        Ok(v) => v,
        Err(e) => {
            return Err(e);
        },
    };
    let ghost sigs = json_string_array_of(public_inputs_json@)->Some_0;
    if vk.gamma_abc_g1.len() == 0 || vk.gamma_abc_g1.len() - 1 != inputs.len() {
        proof {
            assert(vkt.4.len() != sigs.len() + 1);
        }
        return Err(VerifierError::VerifyProof);
    }
    proof {
        lemma_vk_ser_of_parse(vk, vkt);
        lemma_proof_ser_of_parse(zk_proof, pt);
        lemma_inputs_ser_of_parse(inputs@, sigs);
        assert(vkt.4.len() == sigs.len() + 1);
    }
    verify_parsed(&vk, &zk_proof, &inputs)
}

} // verus!

verus! {

/// Size of the error buffer handed to the native prover.
pub const ERROR_MSG_SIZE: usize = 4096;

/// A failure of the native Groth16 prover, carrying its message.
#[derive(Clone, Debug, PartialEq, Eq)]
pub struct ProverError {
    pub message: String,
}

/// The bytes of a C string up to its first NUL.
pub open spec fn cstr_prefix(s: Seq<u8>) -> Seq<u8>
    decreases s.len(),
{
    if s.len() == 0 {
        Seq::empty()
    } else if s[0] == 0 {
        Seq::empty()
    } else {
        seq![s[0]] + cstr_prefix(s.drop_first())
    }
}

proof fn lemma_cstr_prefix_is_take(s: Seq<u8>, i: int)
    requires
        0 <= i <= s.len(),
        forall|j: int| 0 <= j < i ==> s[j] != 0,
        i < s.len() ==> s[i] == 0,
    ensures
        cstr_prefix(s) =~= s.take(i),
    decreases s.len(),
{
    if s.len() == 0 {
    } else if s[0] == 0 {
        assert(i == 0);
    } else {
        let s1 = s.drop_first();
        lemma_cstr_prefix_is_take(s1, i - 1);
        assert(seq![s[0]] + s1.take(i - 1) =~= s.take(i));
    }
}

/// What `String::from_utf8_lossy` makes of the bytes: a function of the bytes
/// alone; on valid UTF-8 it is the decoded text itself.
pub uninterp spec fn utf8_lossy_of(b: Seq<u8>) -> Seq<char>;

/// Relies on `String::from_utf8_lossy`: valid UTF-8 passes through unchanged.
#[verifier::external_body]
fn utf8_lossy(b: &[u8]) -> (r: String)
    ensures
        r@ == utf8_lossy_of(b@),
        valid_utf8(b@) ==> encode_utf8(r@) == b@,
{
    String::from_utf8_lossy(b).into_owned()
}

/// The index of the first NUL, or the length when none occurs.
fn cstr_end(b: &[u8]) -> (r: usize)
    ensures
        r <= b@.len(),
        forall|j: int| 0 <= j < r ==> b@[j] != 0,
        r < b@.len() ==> b@[r as int] == 0,
{
    let n = b.len();
    let mut i: usize = 0;
    while i < n
        invariant
            n == b@.len(),
            i <= n,
            forall|j: int| 0 <= j < i ==> b@[j] != 0,
        decreases n - i,
    {
        if b[i] == 0 {
            return i;
        }
        i = i + 1;
    }
    n
}

/// Reads the NUL-terminated text at the start of a prover buffer.
fn cstr_text(b: &[u8]) -> (r: String)
    ensures
        r@ == utf8_lossy_of(cstr_prefix(b@)),
{
    let end = cstr_end(b);
    let prefix = slice_subrange(b, 0, end);
    proof {
        lemma_cstr_prefix_is_take(b@, end as int);
        assert(prefix@ =~= cstr_prefix(b@));
    }
    utf8_lossy(prefix)
}

/// Interprets the native prover's second invocation: a zero status yields the
/// proof and public-signals JSON texts from their buffers; any other status
/// yields the message in the error buffer.
pub fn interpret_prover_result(
    status: i32,
    proof_buf: &[u8],
    public_buf: &[u8],
    error_buf: &[u8],
) -> (r: Result<(String, String), ProverError>)
    ensures
        r is Ok <==> status == 0,
        r matches Ok(t) ==> t.0@ == utf8_lossy_of(cstr_prefix(proof_buf@)) && t.1@ == utf8_lossy_of(
            cstr_prefix(public_buf@),
        ),
        r matches Err(e) ==> e.message@ == utf8_lossy_of(cstr_prefix(error_buf@)),
{
    if status != 0 {
        Err(ProverError { message: cstr_text(error_buf) })
    } else {
        Ok((cstr_text(proof_buf), cstr_text(public_buf)))
    }
}

} // verus!
