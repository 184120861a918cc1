//! A KZG commitment scheme over BLS12-381 for fixed-size blobs: hex and
//! byte decoding of canonical field elements, blobs, compressed G1
//! commitments and proofs and a trusted setup; committing to a blob;
//! verifying one opening proof or a batch of them with a single pairing
//! check; and the records that test fixtures decode into. Curve arithmetic
//! and pairings come from blst.
pub mod blob;
pub mod bytes;
pub mod error;
pub mod field;
pub mod hex;
pub mod kzg;
pub mod point;
pub mod setup;
pub mod test_formats;

pub use blob::{Blob, BYTES_PER_BLOB, FIELD_ELEMENTS_PER_BLOB};
pub use bytes::{Bytes32, Bytes48};
pub use error::Error;
pub use field::BYTES_PER_FIELD_ELEMENT;
pub use hex::hex_to_bytes;
pub use kzg::{blob_to_kzg_commitment, verify_kzg_proof, verify_kzg_proof_batch};
pub use point::{
    KzgCommitment, KzgProof, BYTES_PER_COMMITMENT, BYTES_PER_G1_POINT, BYTES_PER_G2_POINT,
    BYTES_PER_PROOF,
};
pub use setup::TrustedSetup;
