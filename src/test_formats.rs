//! Records that test fixtures decode into, and the typed values read from them.
pub mod verify_blob_kzg_proof_batch;
