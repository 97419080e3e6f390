use atomic_swap::groth16::{
    groth16_verifier, interpret_prover_result, public_inputs_from_json, VerificationKey,
    VerificationKeyIntermidiateRepr, VerifierError, ZkProof, ZkProofIntermidiateRepr,
};
use atomic_swap::u256::U256;

// The BN254 G1 generator and G2 generator, in the decimal convention the
// proof and verification-key JSON documents use.
const G1X: &str = "1";
const G1Y: &str = "2";
const G2X0: &str = "10857046999023057135944570762232829481370756359578518086990519993285655852781";
const G2X1: &str = "11559732032986387107991004021392285783925812861821192530917403151452391805634";
const G2Y0: &str = "8495653923123431417604973247489272438418190587263600148770280649306958101930";
const G2Y1: &str = "4082367875863433681332203403145435568316851327593401208105741076214120093531";

fn g1_json() -> String {
    format!("[\"{}\", \"{}\", \"1\"]", G1X, G1Y)
}

fn g2_json() -> String {
    format!(
        "[[\"{}\", \"{}\"], [\"{}\", \"{}\"], [\"1\", \"0\"]]",
        G2X0, G2X1, G2Y0, G2Y1
    )
}

fn vk_json() -> String {
    format!(
        "{{\"vk_alpha_1\": {g1}, \"vk_beta_2\": {g2}, \"vk_gamma_2\": {g2}, \"vk_delta_2\": {g2}, \"IC\": [{g1}]}}",
        g1 = g1_json(),
        g2 = g2_json()
    )
}

fn proof_json() -> String {
    format!(
        "{{\"pi_a\": {g1}, \"pi_b\": {g2}, \"pi_c\": {g1}}}",
        g1 = g1_json(),
        g2 = g2_json()
    )
}

#[test]
fn test_proof_from_json() {
    let repr = ZkProofIntermidiateRepr::from_json(proof_json().as_bytes()).unwrap();
    assert_eq!(repr.pi_a, vec!["1", "2", "1"]);
    assert_eq!(repr.pi_b.len(), 3);
    let parsed = ZkProof::parse(&repr).unwrap();
    assert_eq!(parsed.a.x, U256::from_u64(1));
    assert_eq!(parsed.a.y, U256::from_u64(2));
    assert_eq!(parsed.b.x_c0, U256::from_dec_str(G2X0).unwrap());
}

#[test]
fn test_proof_from_json_rejects_malformed() {
    assert_eq!(
        ZkProofIntermidiateRepr::from_json(b"not json"),
        Err(VerifierError::Serde)
    );
    assert_eq!(
        ZkProofIntermidiateRepr::from_json(b"{\"pi_a\": [\"1\"]}"),
        Err(VerifierError::Serde)
    );
    // wrong coordinate count
    let repr = ZkProofIntermidiateRepr {
        pi_a: vec!["1".to_string()],
        pi_b: vec![],
        pi_c: vec![],
    };
    assert_eq!(ZkProof::parse(&repr), Err(VerifierError::Serde));
    // a coordinate at the field modulus is out of range
    let repr = ZkProofIntermidiateRepr {
        pi_a: vec![
            "21888242871839275222246405745257275088696311157297823662689037894645226208583"
                .to_string(),
            "2".to_string(),
            "1".to_string(),
        ],
        pi_b: vec![
            vec![G2X0.to_string(), G2X1.to_string()],
            vec![G2Y0.to_string(), G2Y1.to_string()],
            vec!["1".to_string(), "0".to_string()],
        ],
        pi_c: vec!["1".to_string(), "2".to_string(), "1".to_string()],
    };
    assert_eq!(ZkProof::parse(&repr), Err(VerifierError::ParsePoints));
}

#[test]
fn test_vk_from_json() {
    let repr = VerificationKeyIntermidiateRepr::from_json(vk_json().as_bytes()).unwrap();
    assert_eq!(repr.ic.len(), 1);
    let vk = VerificationKey::parse(&repr).unwrap();
    assert_eq!(vk.gamma_abc_g1.len(), 1);
    assert_eq!(vk.alpha_g1.x, U256::from_u64(1));
}

#[test]
fn test_public_inputs_from_json() {
    let v = public_inputs_from_json(b"[\"5\", \"17\"]").unwrap();
    assert_eq!(v, vec![U256::from_u64(5), U256::from_u64(17)]);
    assert_eq!(
        public_inputs_from_json(b"{\"a\": 1}"),
        Err(VerifierError::Serde)
    );
    // the scalar modulus itself is out of range
    assert_eq!(
        public_inputs_from_json(
            b"[\"21888242871839275222246405745257275088548364400416034343698204186575808495617\"]"
        ),
        Err(VerifierError::ParsePoints)
    );
}

#[test]
fn test_groth16_verifier_rejects_unsound_material() {
    // Generator points everywhere are valid curve material, but the pairing
    // equation cannot hold for them: the check must come back negative.
    let r = groth16_verifier(
        vk_json().as_bytes(),
        proof_json().as_bytes(),
        b"[]",
    );
    assert_eq!(r, Ok(false));
}

#[test]
fn test_groth16_verifier_rejects_wrong_signal_count() {
    // One IC point serves zero public signals; one signal cannot fit.
    let r = groth16_verifier(vk_json().as_bytes(), proof_json().as_bytes(), b"[\"5\"]");
    assert_eq!(r, Err(VerifierError::VerifyProof));
}

#[test]
fn test_groth16_verifier_rejects_off_curve_point() {
    let bad_vk = vk_json().replace("\"1\", \"2\"", "\"1\", \"3\"");
    let r = groth16_verifier(bad_vk.as_bytes(), proof_json().as_bytes(), b"[]");
    assert_eq!(r, Err(VerifierError::VerifyProof));
}

#[test]
fn test_interpret_prover_result() {
    let ok = interpret_prover_result(0, b"{\"pi_a\":[]}\0junk", b"[\"1\"]\0", b"\0");
    let (proof, signals) = ok.unwrap();
    assert_eq!(proof, "{\"pi_a\":[]}");
    assert_eq!(signals, "[\"1\"]");

    let err = interpret_prover_result(1, b"\0", b"\0", b"short witness\0padding");
    assert_eq!(err.unwrap_err().message, "short witness");
}

#[test]
fn test_groth16_verifier_error_stages() {
    // Undecodable JSON fails the decode stage.
    assert_eq!(
        groth16_verifier(vk_json().as_bytes(), b"not json", b"[]"),
        Err(VerifierError::Serde)
    );
    assert_eq!(
        groth16_verifier(b"not json", proof_json().as_bytes(), b"[]"),
        Err(VerifierError::Serde)
    );
    // A non-decimal coordinate fails the point-parse stage.
    let bad_vk = vk_json().replace("\"1\", \"2\"", "\"one\", \"2\"");
    assert_eq!(
        groth16_verifier(bad_vk.as_bytes(), proof_json().as_bytes(), b"[]"),
        Err(VerifierError::ParsePoints)
    );
    // A wrongly shaped point array fails as a decode matter.
    let short_vk = vk_json().replace("\"1\", \"2\", \"1\"", "\"1\"");
    assert_eq!(
        groth16_verifier(short_vk.as_bytes(), proof_json().as_bytes(), b"[]"),
        Err(VerifierError::Serde)
    );
    // An out-of-range signal fails the scalar stage.
    assert_eq!(
        groth16_verifier(
            vk_json().as_bytes(),
            proof_json().as_bytes(),
            b"[\"21888242871839275222246405745257275088548364400416034343698204186575808495617\"]"
        ),
        Err(VerifierError::ParsePoints)
    );
}
