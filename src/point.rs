use vstd::prelude::*;

use crate::bytes::{sized, Bytes48};
use crate::error::Error;

verus! {

/// Bytes in a compressed G1 point.
pub const BYTES_PER_G1_POINT: usize = 48;

/// Bytes in a compressed G2 point.
pub const BYTES_PER_G2_POINT: usize = 96;

/// Bytes in a commitment.
pub const BYTES_PER_COMMITMENT: usize = 48;

/// Bytes in a proof.
pub const BYTES_PER_PROOF: usize = 48;

/// The 48 bytes are the compressed encoding of a point of the G1 subgroup,
/// the point at infinity included.
pub uninterp spec fn is_g1_point(b: Seq<u8>) -> bool;

/// Relies on `blst::min_sig::Signature::sig_validate` with its infinity check
/// off: it decompresses 48 bytes (compression flag set) and checks that the
/// point lies in the G1 subgroup, failing otherwise.
#[verifier::external_body]
pub(crate) fn g1_point_valid(b: &[u8; 48]) -> (r: bool)
    ensures
        r == is_g1_point(b@),
{
    blst::min_sig::Signature::sig_validate(b, false).is_ok()
}

/// The 96 bytes are the compressed encoding of a point of the G2 subgroup
/// other than the point at infinity.
pub uninterp spec fn is_g2_point(b: Seq<u8>) -> bool;

/// Relies on `blst::min_sig::PublicKey::key_validate`: it decompresses 96
/// bytes (compression flag set), refuses the point at infinity, and checks
/// that the point lies in the G2 subgroup, failing otherwise.
#[verifier::external_body]
fn g2_point_valid(b: &[u8; 96]) -> (r: bool)
    ensures
        r == is_g2_point(b@),
{
    blst::min_sig::PublicKey::key_validate(b).is_ok()
}

/// What decoding `b` as a compressed G2 point yields: the same bytes, when
/// there are 96 of them and they encode a point of the subgroup other than
/// the point at infinity.
pub open spec fn g2_decode(b: Seq<u8>) -> Result<Seq<u8>, Error> {
    if b.len() != 96 {
        Err(Error::InvalidBytesLength)
    } else if !is_g2_point(b) {
        Err(Error::InvalidPoint)
    } else {
        Ok(b)
    }
}

pub(crate) fn decode_g2(b: &[u8]) -> (r: Result<[u8; 96], Error>)
    ensures
        match r {
            Ok(p) => g2_decode(b@) == Ok::<Seq<u8>, Error>(p@),
            Err(e) => g2_decode(b@) == Err::<Seq<u8>, Error>(e),
        },
{
    if b.len() != 96 {
        return Err(Error::InvalidBytesLength);
    }
    let mut raw = [0u8; 96];
    let mut i: usize = 0;
    while i < 96
        invariant
            b@.len() == 96,
            i <= 96,
            forall|j: int| 0 <= j < i ==> raw@[j] == b@[j],
        decreases 96 - i,
    {
        raw[i] = b[i];
        i = i + 1;
    }
    assert(raw@ =~= b@);
    if g2_point_valid(&raw) {
        Ok(raw)
    } else {
        Err(Error::InvalidPoint)
    }
}

/// What decoding `b` as a compressed G1 point yields: the same bytes, when
/// there are 48 of them and they encode a point of the subgroup.
pub open spec fn g1_decode(b: Seq<u8>) -> Result<Seq<u8>, Error> {
    match sized(b, 48) {
        Ok(p) => if is_g1_point(p) {
            Ok(p)
        } else {
            Err(Error::InvalidPoint)
        },
        Err(e) => Err(e),
    }
}

/// Decoding a commitment or a proof and writing it back out gives the
/// original bytes.
pub proof fn lemma_g1_round_trip(b: Seq<u8>)
    ensures
        g1_decode(b) is Ok ==> g1_decode(b)->Ok_0 == b,
{
}

pub(crate) fn decode_g1(b: &[u8]) -> (r: Result<Bytes48, Error>)
    ensures
        match r {
            Ok(p) => g1_decode(b@) == Ok::<Seq<u8>, Error>(p@),
            Err(e) => g1_decode(b@) == Err::<Seq<u8>, Error>(e),
        },
{
    match Bytes48::from_bytes(b) {
        Ok(p) => {
            let raw = p.to_bytes();
            if g1_point_valid(&raw) {
                Ok(p)
            } else {
                Err(Error::InvalidPoint)
            }
        },
        Err(e) => Err(e),
    }
}

/// A commitment to a blob: a compressed point of the G1 subgroup.
#[derive(Debug, Clone, Copy, PartialEq, Eq)]
pub struct KzgCommitment {
    point: Bytes48,
}

/// An opening proof: a compressed point of the G1 subgroup.
#[derive(Debug, Clone, Copy, PartialEq, Eq)]
pub struct KzgProof {
    point: Bytes48,
}

impl View for KzgCommitment {
    type V = Seq<u8>;

    closed spec fn view(&self) -> Seq<u8> {
        self.point@
    }
}

impl View for KzgProof {
    type V = Seq<u8>;

    closed spec fn view(&self) -> Seq<u8> {
        self.point@
    }
}

impl KzgCommitment {
    /// Wraps the compressed encoding of a computed point.
    pub(crate) fn from_point(raw: [u8; 48]) -> (r: Self)
        ensures
            r@ == raw@,
    {
        KzgCommitment { point: Bytes48::from_array(raw) }
    }

    /// Decodes a commitment, refusing a wrong length or bytes that are not a
    /// point of the subgroup.
    pub fn from_bytes(b: &[u8]) -> (r: Result<Self, Error>)
        ensures
            match r {
                Ok(c) => g1_decode(b@) == Ok::<Seq<u8>, Error>(c@),
                Err(e) => g1_decode(b@) == Err::<Seq<u8>, Error>(e),
            },
    {
        match decode_g1(b) {
            Ok(point) => Ok(KzgCommitment { point }),
            Err(e) => Err(e),
        }
    }

    /// The compressed encoding.
    pub fn to_bytes(&self) -> (r: Bytes48)
        ensures
            r@ == self@,
    {
        self.point
    }
}

impl KzgProof {
    /// Decodes a proof, refusing a wrong length or bytes that are not a point
    /// of the subgroup.
    pub fn from_bytes(b: &[u8]) -> (r: Result<Self, Error>)
        ensures
            match r {
                Ok(p) => g1_decode(b@) == Ok::<Seq<u8>, Error>(p@),
                Err(e) => g1_decode(b@) == Err::<Seq<u8>, Error>(e),
            },
    {
        match decode_g1(b) {
            Ok(point) => Ok(KzgProof { point }),
            Err(e) => Err(e),
        }
    }

    /// The compressed encoding.
    pub fn to_bytes(&self) -> (r: Bytes48)
        ensures
            r@ == self@,
    {
        self.point
    }
}

} // verus!
