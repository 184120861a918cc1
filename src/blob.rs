use vstd::prelude::*;
use vstd::utf8::encode_utf8;

use crate::error::Error;
use crate::hex::{hex_decode, hex_to_bytes};
use crate::field::{is_canonical, is_canonical_at, BYTES_PER_FIELD_ELEMENT};

verus! {

/// Field elements in one blob.
pub const FIELD_ELEMENTS_PER_BLOB: usize = 4096;

/// Bytes in one blob.
pub const BYTES_PER_BLOB: usize = 131072;

/// The `k`-th 32-byte field element of the byte string `b`.
pub open spec fn element(b: Seq<u8>, k: int) -> Seq<u8> {
    b.subrange(k * 32, k * 32 + 32)
}

/// Every 32-byte field element of `b` is canonical.
pub open spec fn all_canonical(b: Seq<u8>) -> bool {
    forall|k: int| 0 <= k < b.len() / 32 ==> is_canonical(#[trigger] element(b, k))
}

/// What decoding `b` as a blob yields: the same bytes, when there are
/// exactly as many as a blob holds and every field element is canonical.
pub open spec fn blob_decode(b: Seq<u8>) -> Result<Seq<u8>, Error> {
    if b.len() != BYTES_PER_BLOB {
        Err(Error::InvalidBytesLength)
    } else if !all_canonical(b) {
        Err(Error::NonCanonicalFieldElement)
    } else {
        Ok(b)
    }
}

/// Decoding a blob and writing its bytes back out gives the original bytes.
pub proof fn lemma_blob_round_trip(b: Seq<u8>)
    ensures
        blob_decode(b) is Ok ==> blob_decode(b)->Ok_0 == b,
{
}

/// What decoding the hex text `t` as a blob yields.
pub open spec fn blob_from_hex(t: Seq<u8>) -> Result<Seq<u8>, Error> {
    match hex_decode(t) {
        Ok(b) => blob_decode(b),
        Err(e) => Err(e),
    }
}

/// A blob: `FIELD_ELEMENTS_PER_BLOB` canonical field elements, each in 32
/// big-endian bytes.
#[derive(Debug, PartialEq, Eq)]
pub struct Blob {
    bytes: Vec<u8>,
}

impl View for Blob {
    type V = Seq<u8>;

    closed spec fn view(&self) -> Seq<u8> {
        self.bytes@
    }
}

impl Blob {
    #[verifier::type_invariant]
    spec fn inv(&self) -> bool {
        blob_decode(self.bytes@) is Ok
    }

    /// Decodes a blob, refusing a wrong length or a non-canonical element.
    pub fn from_bytes(bytes: &[u8]) -> (r: Result<Blob, Error>)
        ensures
            match r {
                Ok(b) => blob_decode(bytes@) == Ok::<Seq<u8>, Error>(b@),
                Err(e) => blob_decode(bytes@) == Err::<Seq<u8>, Error>(e),
            },
    {
        if bytes.len() != BYTES_PER_BLOB {
            return Err(Error::InvalidBytesLength);
        }
        let mut k: usize = 0;
        while k < FIELD_ELEMENTS_PER_BLOB
            invariant
                bytes@.len() == BYTES_PER_BLOB,
                k <= FIELD_ELEMENTS_PER_BLOB,
                forall|j: int| 0 <= j < k ==> is_canonical(#[trigger] element(bytes@, j)),
            decreases FIELD_ELEMENTS_PER_BLOB - k,
        {
            let off: usize = k * BYTES_PER_FIELD_ELEMENT;
            if !is_canonical_at(bytes, off) {
                assert(element(bytes@, k as int) == bytes@.subrange(off as int, off + 32));
                return Err(Error::NonCanonicalFieldElement);
            }
            k = k + 1;
        }
        let v = vstd::slice::slice_to_vec(bytes);
        Ok(Blob { bytes: v })
    }

    /// Decodes a blob written in hex, with or without a `0x` prefix.
    pub fn from_hex(hex_str: &str) -> (r: Result<Blob, Error>)
        ensures
            match r {
                Ok(b) => blob_from_hex(encode_utf8(hex_str@)) == Ok::<Seq<u8>, Error>(b@),
                Err(e) => blob_from_hex(encode_utf8(hex_str@)) == Err::<Seq<u8>, Error>(e),
            },
    {
        match hex_to_bytes(hex_str) {
            Ok(b) => Self::from_bytes(b.as_slice()),
            Err(e) => Err(e),
        }
    }

    /// The bytes of the blob, which decode as a blob again.
    pub fn as_slice(&self) -> (r: &[u8])
        ensures
            r@ == self@,
            blob_decode(r@) == Ok::<Seq<u8>, Error>(r@),
    {
        proof {
            use_type_invariant(self);
        }
        self.bytes.as_slice()
    }
}

} // verus!
