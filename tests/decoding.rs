use c_kzg::test_formats::blob_to_kzg_commitment_test as commit_fixture;
use c_kzg::test_formats::verify_blob_kzg_proof_batch as batch_fixture;
use c_kzg::{
    hex_to_bytes, Blob, Bytes32, Bytes48, Error, KzgCommitment, KzgProof, BYTES_PER_BLOB,
    FIELD_ELEMENTS_PER_BLOB,
};

const MODULUS_HEX: &str = "73eda753299d7d483339d80809a1d80553bda402fffe5bfeffffffff00000001";
const MODULUS_MINUS_ONE_HEX: &str =
    "73eda753299d7d483339d80809a1d80553bda402fffe5bfeffffffff00000000";
const G1_GENERATOR_HEX: &str = "97f1d3a73197d7942695638c4fa9ac0fc3688c4f9774b905a14e3a3f171bac586c55e83ff97a1aeffb3af00adb22c6bb";
const G1_INFINITY_HEX: &str = "c00000000000000000000000000000000000000000000000000000000000000000000000000000000000000000000000";

fn zero_element() -> String {
    "00".repeat(32)
}

fn blob_hex_with(index: usize, element: &str) -> String {
    let mut s = String::new();
    for k in 0..FIELD_ELEMENTS_PER_BLOB {
        if k == index {
            s.push_str(element);
        } else {
            s.push_str(&zero_element());
        }
    }
    s
}

#[test]
fn hex_plain_and_prefixed() {
    assert_eq!(hex_to_bytes("00ff10").unwrap(), vec![0x00, 0xff, 0x10]);
    assert_eq!(hex_to_bytes("0x00ff10").unwrap(), vec![0x00, 0xff, 0x10]);
    assert_eq!(hex_to_bytes("0xABcd").unwrap(), vec![0xab, 0xcd]);
    assert_eq!(hex_to_bytes("").unwrap(), Vec::<u8>::new());
    assert_eq!(hex_to_bytes("0x").unwrap(), Vec::<u8>::new());
}

#[test]
fn hex_refuses_odd_length_and_bad_digits() {
    assert_eq!(hex_to_bytes("abc"), Err(Error::InvalidHexFormat));
    assert_eq!(hex_to_bytes("0xzz"), Err(Error::InvalidHexFormat));
    assert_eq!(hex_to_bytes("g0"), Err(Error::InvalidHexFormat));
    assert_eq!(hex_to_bytes("0X00"), Err(Error::InvalidHexFormat));
}

#[test]
fn bytes32_and_bytes48_lengths() {
    let b = Bytes32::from_hex(MODULUS_HEX).unwrap();
    assert_eq!(b.to_bytes()[0], 0x73);
    assert_eq!(b.to_bytes()[31], 0x01);
    assert_eq!(Bytes32::from_bytes(&[0u8; 31]), Err(Error::InvalidBytesLength));
    assert_eq!(Bytes48::from_bytes(&[0u8; 49]), Err(Error::InvalidBytesLength));
    assert_eq!(Bytes48::from_hex("0x00"), Err(Error::InvalidBytesLength));
    assert_eq!(Bytes48::from_hex("0x0"), Err(Error::InvalidHexFormat));
    let g = Bytes48::from_hex(G1_GENERATOR_HEX).unwrap();
    assert_eq!(g.to_bytes().to_vec(), hex_to_bytes(G1_GENERATOR_HEX).unwrap());
}

#[test]
fn blob_round_trip_of_bytes() {
    let hex = blob_hex_with(3, MODULUS_MINUS_ONE_HEX);
    let bytes = hex_to_bytes(&hex).unwrap();
    let blob = Blob::from_bytes(&bytes).unwrap();
    assert_eq!(blob.as_slice(), bytes.as_slice());
    assert_eq!(bytes.len(), BYTES_PER_BLOB);
}

#[test]
fn blob_refuses_wrong_length() {
    assert_eq!(Blob::from_bytes(&[0u8; 32]).err(), Some(Error::InvalidBytesLength));
    let mut bytes = vec![0u8; BYTES_PER_BLOB];
    bytes.push(0);
    assert_eq!(Blob::from_bytes(&bytes).err(), Some(Error::InvalidBytesLength));
}

#[test]
fn blob_refuses_non_canonical_element() {
    let hex = blob_hex_with(5, MODULUS_HEX);
    assert_eq!(Blob::from_hex(&hex).err(), Some(Error::NonCanonicalFieldElement));
    let hex = blob_hex_with(FIELD_ELEMENTS_PER_BLOB - 1, &"ff".repeat(32));
    assert_eq!(Blob::from_hex(&hex).err(), Some(Error::NonCanonicalFieldElement));
    let hex = blob_hex_with(0, MODULUS_MINUS_ONE_HEX);
    assert!(Blob::from_hex(&hex).is_ok());
}

#[test]
fn points_decode_and_round_trip() {
    let g = hex_to_bytes(G1_GENERATOR_HEX).unwrap();
    let c = KzgCommitment::from_bytes(&g).unwrap();
    assert_eq!(c.to_bytes().to_bytes().to_vec(), g);
    let inf = hex_to_bytes(G1_INFINITY_HEX).unwrap();
    let p = KzgProof::from_bytes(&inf).unwrap();
    assert_eq!(p.to_bytes().to_bytes().to_vec(), inf);
}

#[test]
fn points_refuse_bad_encodings() {
    assert_eq!(KzgCommitment::from_bytes(&[0u8; 48]).err(), Some(Error::InvalidPoint));
    let mut over = vec![0x9fu8];
    over.extend_from_slice(&[0xffu8; 47]);
    assert_eq!(KzgProof::from_bytes(&over).err(), Some(Error::InvalidPoint));
    assert_eq!(KzgProof::from_bytes(&[0u8; 47]).err(), Some(Error::InvalidBytesLength));
}

#[test]
fn commitment_fixture_reads_blob_and_output() {
    let hex = format!("0x{}", blob_hex_with(1, MODULUS_MINUS_ONE_HEX));
    let test = commit_fixture::Test::new(commit_fixture::Input::new(&hex), Some(G1_GENERATOR_HEX));
    let blob = test.input.get_blob().unwrap();
    assert_eq!(blob.as_slice().len(), BYTES_PER_BLOB);
    assert_eq!(test.get_output(), Some(Bytes48::from_hex(G1_GENERATOR_HEX).unwrap()));
    let refused = commit_fixture::Test::new(commit_fixture::Input::new("0x00"), None);
    assert_eq!(refused.input.get_blob().err(), Some(Error::InvalidBytesLength));
    assert_eq!(refused.get_output(), None);
}

#[test]
fn batch_fixture_reads_all_or_first_error() {
    let good = blob_hex_with(0, MODULUS_MINUS_ONE_HEX);
    let bad = blob_hex_with(0, MODULUS_HEX);
    let input = batch_fixture::Input::new(
        vec![good.clone(), good.clone()],
        vec![G1_GENERATOR_HEX.to_string(), G1_INFINITY_HEX.to_string()],
        vec![G1_INFINITY_HEX.to_string()],
    );
    assert_eq!(input.get_blobs().unwrap().len(), 2);
    let commitments = input.get_commitments().unwrap();
    assert_eq!(commitments[1], Bytes48::from_hex(G1_INFINITY_HEX).unwrap());
    assert_eq!(input.get_proofs().unwrap().len(), 1);

    let input = batch_fixture::Input::new(
        vec![good, "0xzz".to_string(), bad],
        vec!["00".to_string()],
        vec![],
    );
    assert_eq!(input.get_blobs().err(), Some(Error::InvalidHexFormat));
    assert_eq!(input.get_commitments().err(), Some(Error::InvalidBytesLength));
    assert_eq!(input.get_proofs().unwrap().len(), 0);

    let test = batch_fixture::Test::new(input, Some(false));
    assert_eq!(test.get_output(), Some(false));
}
