use c_kzg::{
    blob_to_kzg_commitment, hex_to_bytes, verify_kzg_proof, verify_kzg_proof_batch, Blob, Bytes32, Bytes48, Error,
    KzgCommitment, TrustedSetup, BYTES_PER_BLOB, FIELD_ELEMENTS_PER_BLOB,
};

const G1_GENERATOR_HEX: &str = "97f1d3a73197d7942695638c4fa9ac0fc3688c4f9774b905a14e3a3f171bac586c55e83ff97a1aeffb3af00adb22c6bb";
const G1_NEG_GENERATOR_HEX: &str = "b7f1d3a73197d7942695638c4fa9ac0fc3688c4f9774b905a14e3a3f171bac586c55e83ff97a1aeffb3af00adb22c6bb";
const G1_INFINITY_HEX: &str = "c00000000000000000000000000000000000000000000000000000000000000000000000000000000000000000000000";
const G2_GENERATOR_HEX: &str = "93e02b6052719f607dacd3a088274f65596bd0d09920b61ab5da61bbdc7f5049334cf11213945d57e5ac7d055d042b7e024aa2b2f08f0a91260805272dc51051c6e47ad4fa403b02b4510b647ae3d1770bac0326a805bbefd48056c8c121bdb8";
const MODULUS_MINUS_ONE_HEX: &str =
    "73eda753299d7d483339d80809a1d80553bda402fffe5bfeffffffff00000000";
const MODULUS_MINUS_TWO_HEX: &str =
    "73eda753299d7d483339d80809a1d80553bda402fffe5bfefffffffeffffffff";
const MODULUS_HEX: &str = "73eda753299d7d483339d80809a1d80553bda402fffe5bfeffffffff00000001";

fn repeated(hex: &str, n: usize) -> Vec<u8> {
    let p = hex_to_bytes(hex).unwrap();
    let mut bytes = Vec::new();
    for _ in 0..n {
        bytes.extend_from_slice(&p);
    }
    bytes
}

/// A setup whose every Lagrange point is the G1 generator and whose G2
/// points are all the G2 generator: the secret is one, and a commitment is
/// the sum of the blob's elements times the generator.
fn generator_setup() -> TrustedSetup {
    TrustedSetup::from_bytes(
        &repeated(G1_GENERATOR_HEX, FIELD_ELEMENTS_PER_BLOB),
        &repeated(G2_GENERATOR_HEX, 65),
    )
    .unwrap()
}

fn blob_with(values: &[(usize, u8)]) -> Blob {
    let mut bytes = vec![0u8; BYTES_PER_BLOB];
    for &(k, v) in values {
        bytes[32 * k + 31] = v;
    }
    Blob::from_bytes(&bytes).unwrap()
}

fn blob_with_element(k: usize, hex: &str) -> Blob {
    let mut bytes = vec![0u8; BYTES_PER_BLOB];
    bytes[32 * k..32 * k + 32].copy_from_slice(&hex_to_bytes(hex).unwrap());
    Blob::from_bytes(&bytes).unwrap()
}

fn scalar(v: u8) -> Bytes32 {
    let mut b = [0u8; 32];
    b[31] = v;
    Bytes32::from_bytes(&b).unwrap()
}

fn point_of(c: KzgCommitment) -> Bytes48 {
    c.to_bytes()
}

#[test]
fn zero_blob_commits_to_infinity() {
    let setup = generator_setup();
    let c = blob_to_kzg_commitment(&blob_with(&[]), &setup);
    assert_eq!(c.to_bytes().to_bytes().to_vec(), hex_to_bytes(G1_INFINITY_HEX).unwrap());
}

#[test]
fn unit_blob_commits_to_its_point() {
    let setup = generator_setup();
    let c = blob_to_kzg_commitment(&blob_with(&[(7, 1)]), &setup);
    assert_eq!(c.to_bytes().to_bytes().to_vec(), hex_to_bytes(G1_GENERATOR_HEX).unwrap());
    let neg = blob_to_kzg_commitment(&blob_with_element(9, MODULUS_MINUS_ONE_HEX), &setup);
    assert_eq!(neg.to_bytes().to_bytes().to_vec(), hex_to_bytes(G1_NEG_GENERATOR_HEX).unwrap());
}

#[test]
fn commitment_is_deterministic_and_weighted() {
    let setup = generator_setup();
    let a = blob_to_kzg_commitment(&blob_with(&[(0, 2)]), &setup);
    let b = blob_to_kzg_commitment(&blob_with(&[(0, 2)]), &setup);
    let c = blob_to_kzg_commitment(&blob_with(&[(0, 1), (4095, 1)]), &setup);
    let g = blob_to_kzg_commitment(&blob_with(&[(0, 1)]), &setup);
    assert_eq!(a, b);
    assert_eq!(a, c);
    assert_ne!(a, g);
}

#[test]
fn setup_refuses_wrong_count_and_bad_points() {
    let g2 = repeated(G2_GENERATOR_HEX, 65);
    let mut g1 = repeated(G1_GENERATOR_HEX, FIELD_ELEMENTS_PER_BLOB - 1);
    assert_eq!(TrustedSetup::from_bytes(&g1, &g2).err(), Some(Error::InvalidBytesLength));
    g1.extend_from_slice(&[0u8; 48]);
    assert_eq!(TrustedSetup::from_bytes(&g1, &g2).err(), Some(Error::InvalidPoint));
    let g1 = repeated(G1_GENERATOR_HEX, FIELD_ELEMENTS_PER_BLOB);
    assert_eq!(
        TrustedSetup::from_bytes(&g1, &g2[..96 * 64]).err(),
        Some(Error::InvalidBytesLength)
    );
    let mut g2_bad = g2.clone();
    g2_bad[96 * 3..96 * 4].copy_from_slice(&[0u8; 96]);
    assert_eq!(TrustedSetup::from_bytes(&g1, &g2_bad).err(), Some(Error::InvalidPoint));
}

#[test]
fn valid_opening_verifies() {
    // With the secret one, p(1) = 3, so at z = 0 with y = 1 the quotient is
    // (3 - 1) / (1 - 0) = 2; at z = 2 it is (3 - 1) / (1 - 2) = -2.
    let setup = generator_setup();
    let c = point_of(blob_to_kzg_commitment(&blob_with(&[(0, 3)]), &setup));
    let two = point_of(blob_to_kzg_commitment(&blob_with(&[(0, 2)]), &setup));
    let minus_two = point_of(blob_to_kzg_commitment(
        &blob_with_element(0, MODULUS_MINUS_TWO_HEX),
        &setup,
    ));
    assert_eq!(verify_kzg_proof(&c, &scalar(0), &scalar(1), &two, &setup), Ok(true));
    assert_eq!(verify_kzg_proof(&c, &scalar(2), &scalar(1), &minus_two, &setup), Ok(true));
}

#[test]
fn altered_opening_is_false() {
    let setup = generator_setup();
    let c = point_of(blob_to_kzg_commitment(&blob_with(&[(0, 3)]), &setup));
    let two = point_of(blob_to_kzg_commitment(&blob_with(&[(0, 2)]), &setup));
    let g = Bytes48::from_hex(G1_GENERATOR_HEX).unwrap();
    assert_eq!(verify_kzg_proof(&c, &scalar(0), &scalar(1), &g, &setup), Ok(false));
    assert_eq!(verify_kzg_proof(&c, &scalar(0), &scalar(2), &two, &setup), Ok(false));
    assert_eq!(verify_kzg_proof(&c, &scalar(1), &scalar(1), &two, &setup), Ok(false));
    assert_eq!(verify_kzg_proof(&two, &scalar(0), &scalar(1), &two, &setup), Ok(false));
}

#[test]
fn malformed_opening_is_an_error() {
    let setup = generator_setup();
    let c = point_of(blob_to_kzg_commitment(&blob_with(&[(0, 3)]), &setup));
    let two = point_of(blob_to_kzg_commitment(&blob_with(&[(0, 2)]), &setup));
    let not_a_point = Bytes48::from_bytes(&[0u8; 48]).unwrap();
    let r = Bytes32::from_hex(MODULUS_HEX).unwrap();
    assert_eq!(
        verify_kzg_proof(&not_a_point, &scalar(0), &scalar(1), &two, &setup),
        Err(Error::InvalidPoint)
    );
    assert_eq!(
        verify_kzg_proof(&c, &r, &scalar(1), &two, &setup),
        Err(Error::NonCanonicalFieldElement)
    );
    assert_eq!(
        verify_kzg_proof(&c, &scalar(0), &r, &two, &setup),
        Err(Error::NonCanonicalFieldElement)
    );
    assert_eq!(
        verify_kzg_proof(&c, &scalar(0), &scalar(1), &not_a_point, &setup),
        Err(Error::InvalidPoint)
    );
}

struct Claims {
    commitments: Vec<Bytes48>,
    zs: Vec<Bytes32>,
    ys: Vec<Bytes32>,
    proofs: Vec<Bytes48>,
}

/// Two valid openings of the blob with p(1) = 3 under the generator setup.
fn two_valid_claims(setup: &TrustedSetup) -> Claims {
    let c = point_of(blob_to_kzg_commitment(&blob_with(&[(0, 3)]), setup));
    let two = point_of(blob_to_kzg_commitment(&blob_with(&[(0, 2)]), setup));
    let minus_two = point_of(blob_to_kzg_commitment(
        &blob_with_element(0, MODULUS_MINUS_TWO_HEX),
        setup,
    ));
    Claims {
        commitments: vec![c, c],
        zs: vec![scalar(0), scalar(2)],
        ys: vec![scalar(1), scalar(1)],
        proofs: vec![two, minus_two],
    }
}

#[test]
fn batch_of_valid_openings_verifies() {
    let setup = generator_setup();
    let k = two_valid_claims(&setup);
    let coefficients = vec![scalar(1), scalar(5)];
    let r = verify_kzg_proof_batch(&k.commitments, &k.zs, &k.ys, &k.proofs, &coefficients, &setup);
    assert_eq!(r, Ok(true));
}

#[test]
fn batch_with_one_altered_proof_is_false() {
    let setup = generator_setup();
    let mut k = two_valid_claims(&setup);
    k.proofs[0] = Bytes48::from_hex(G1_GENERATOR_HEX).unwrap();
    let coefficients = vec![scalar(1), scalar(5)];
    let r = verify_kzg_proof_batch(&k.commitments, &k.zs, &k.ys, &k.proofs, &coefficients, &setup);
    assert_eq!(r, Ok(false));
}

#[test]
fn empty_batch_verifies() {
    let setup = generator_setup();
    let r = verify_kzg_proof_batch(&vec![], &vec![], &vec![], &vec![], &vec![], &setup);
    assert_eq!(r, Ok(true));
}

#[test]
fn batch_refuses_mismatched_or_malformed_claims() {
    let setup = generator_setup();
    let k = two_valid_claims(&setup);
    let r = verify_kzg_proof_batch(&k.commitments, &k.zs, &k.ys, &k.proofs, &vec![scalar(1)], &setup);
    assert_eq!(r, Err(Error::MismatchLength));
    let over = Bytes32::from_hex(MODULUS_HEX).unwrap();
    let r = verify_kzg_proof_batch(
        &k.commitments,
        &k.zs,
        &k.ys,
        &k.proofs,
        &vec![scalar(1), over],
        &setup,
    );
    assert_eq!(r, Err(Error::NonCanonicalFieldElement));
    let mut bad = k.commitments.clone();
    bad[1] = Bytes48::from_bytes(&[0u8; 48]).unwrap();
    let r = verify_kzg_proof_batch(&bad, &k.zs, &k.ys, &k.proofs, &vec![scalar(1), scalar(2)], &setup);
    assert_eq!(r, Err(Error::InvalidPoint));
}
