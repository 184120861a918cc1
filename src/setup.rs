use vstd::prelude::*;

use crate::blob::FIELD_ELEMENTS_PER_BLOB;
use crate::bytes::Bytes48;
use crate::error::Error;
use crate::point::{
    decode_g1, decode_g2, g1_point_valid, is_g1_point, is_g2_point, BYTES_PER_G1_POINT,
    BYTES_PER_G2_POINT,
};

verus! {

/// Bytes in the G1 part of a trusted setup: one compressed point per field
/// element of a blob.
pub const BYTES_PER_SETUP_G1: usize = 196608;

/// G2 points in a trusted setup.
pub const NUM_G2_POINTS: usize = 65;

/// Bytes in the G2 part of a trusted setup.
pub const BYTES_PER_SETUP_G2: usize = 6240;

/// The compressed encoding of the negated G1 generator.
pub open spec fn neg_g1_generator() -> Seq<u8> {
    seq![
        0xb7u8, 0xf1, 0xd3, 0xa7, 0x31, 0x97, 0xd7, 0x94, 0x26, 0x95, 0x63, 0x8c,
        0x4f, 0xa9, 0xac, 0x0f, 0xc3, 0x68, 0x8c, 0x4f, 0x97, 0x74, 0xb9, 0x05,
        0xa1, 0x4e, 0x3a, 0x3f, 0x17, 0x1b, 0xac, 0x58, 0x6c, 0x55, 0xe8, 0x3f,
        0xf9, 0x7a, 0x1a, 0xef, 0xfb, 0x3a, 0xf0, 0x0a, 0xdb, 0x22, 0xc6, 0xbb,
    ]
}

fn neg_g1_generator_bytes() -> (r: [u8; 48])
    ensures
        r@ == neg_g1_generator(),
{
    let r: [u8; 48] = [
        0xb7, 0xf1, 0xd3, 0xa7, 0x31, 0x97, 0xd7, 0x94, 0x26, 0x95, 0x63, 0x8c,
        0x4f, 0xa9, 0xac, 0x0f, 0xc3, 0x68, 0x8c, 0x4f, 0x97, 0x74, 0xb9, 0x05,
        0xa1, 0x4e, 0x3a, 0x3f, 0x17, 0x1b, 0xac, 0x58, 0x6c, 0x55, 0xe8, 0x3f,
        0xf9, 0x7a, 0x1a, 0xef, 0xfb, 0x3a, 0xf0, 0x0a, 0xdb, 0x22, 0xc6, 0xbb,
    ];
    assert(r@ =~= neg_g1_generator());
    r
}

/// The `i`-th 48-byte point of the byte string `b`.
pub open spec fn g1_chunk(b: Seq<u8>, i: int) -> Seq<u8> {
    b.subrange(i * 48, i * 48 + 48)
}

/// The `i`-th 96-byte point of the byte string `b`.
pub open spec fn g2_chunk(b: Seq<u8>, i: int) -> Seq<u8> {
    b.subrange(i * 96, i * 96 + 96)
}

/// Every 48-byte point of `b` is a point of the G1 subgroup.
pub open spec fn all_g1_points(b: Seq<u8>) -> bool {
    forall|i: int| 0 <= i < b.len() / 48 ==> is_g1_point(#[trigger] g1_chunk(b, i))
}

/// Every 96-byte point of `b` is a point of the G2 subgroup.
pub open spec fn all_g2_points(b: Seq<u8>) -> bool {
    forall|i: int| 0 <= i < b.len() / 96 ==> is_g2_point(#[trigger] g2_chunk(b, i))
}

/// The points of `b`, 48 bytes each.
pub open spec fn g1_chunks(b: Seq<u8>) -> Seq<Seq<u8>> {
    Seq::new(b.len() / 48, |i: int| g1_chunk(b, i))
}

/// The points of `b`, 96 bytes each.
pub open spec fn g2_chunks(b: Seq<u8>) -> Seq<Seq<u8>> {
    Seq::new(b.len() / 96, |i: int| g2_chunk(b, i))
}

/// What loading a trusted setup from its G1 points `g1` (in Lagrange form)
/// and its G2 points `g2` (in monomial form) yields: one G1 point per field
/// element of a blob and `NUM_G2_POINTS` G2 points, each in its subgroup.
/// The negated G1 generator, which verification uses beside them, is
/// checked at the same time.
pub open spec fn setup_decode(g1: Seq<u8>, g2: Seq<u8>) -> Result<
    (Seq<Seq<u8>>, Seq<Seq<u8>>),
    Error,
> {
    if g1.len() != BYTES_PER_SETUP_G1 || g2.len() != BYTES_PER_SETUP_G2 {
        Err(Error::InvalidBytesLength)
    } else if !all_g1_points(g1) || !all_g2_points(g2) || !is_g1_point(neg_g1_generator()) {
        Err(Error::InvalidPoint)
    } else {
        Ok((g1_chunks(g1), g2_chunks(g2)))
    }
}

/// The points of a sequence of 48-byte values.
pub open spec fn points_view(v: Seq<Bytes48>) -> Seq<Seq<u8>> {
    v.map_values(|p: Bytes48| p@)
}

/// The points of a sequence of 96-byte arrays.
pub open spec fn g2_view(v: Seq<[u8; 96]>) -> Seq<Seq<u8>> {
    v.map_values(|p: [u8; 96]| p@)
}

/// A trusted setup: its G1 points in evaluation (Lagrange) form, one per
/// field element of a blob, and its G2 points in monomial form, the first two
/// being the generator and its multiple by the secret. Loaded once and only
/// read afterwards.
pub struct TrustedSetup {
    g1_lagrange: Vec<Bytes48>,
    g2_monomial: Vec<[u8; 96]>,
}

impl TrustedSetup {
    #[verifier::type_invariant]
    spec fn inv(&self) -> bool {
        &&& self.g1_lagrange@.len() == FIELD_ELEMENTS_PER_BLOB
        &&& forall|i: int|
            0 <= i < self.g1_lagrange@.len() ==> is_g1_point(#[trigger] self.g1_lagrange@[i]@)
        &&& self.g2_monomial@.len() == NUM_G2_POINTS
        &&& forall|i: int|
            0 <= i < self.g2_monomial@.len() ==> is_g2_point(#[trigger] self.g2_monomial@[i]@)
        &&& is_g1_point(neg_g1_generator())
    }

    /// The setup's G1 points.
    pub closed spec fn g1_points(&self) -> Seq<Seq<u8>> {
        points_view(self.g1_lagrange@)
    }

    /// The setup's G2 points.
    pub closed spec fn g2_points(&self) -> Seq<Seq<u8>> {
        g2_view(self.g2_monomial@)
    }

    /// Loads a setup, refusing a wrong count of points or a point outside its
    /// subgroup.
    pub fn from_bytes(g1: &[u8], g2: &[u8]) -> (r: Result<TrustedSetup, Error>)
        ensures
            match r {
                Ok(s) => setup_decode(g1@, g2@) == Ok::<(Seq<Seq<u8>>, Seq<Seq<u8>>), Error>(
                    (s.g1_points(), s.g2_points()),
                ),
                Err(e) => setup_decode(g1@, g2@) == Err::<(Seq<Seq<u8>>, Seq<Seq<u8>>), Error>(e),
            },
    {
        if g1.len() != BYTES_PER_SETUP_G1 || g2.len() != BYTES_PER_SETUP_G2 {
            return Err(Error::InvalidBytesLength);
        }
        let mut pts: Vec<Bytes48> = Vec::with_capacity(FIELD_ELEMENTS_PER_BLOB);
        let mut i: usize = 0;
        while i < FIELD_ELEMENTS_PER_BLOB
            invariant
                g1@.len() == BYTES_PER_SETUP_G1,
                g2@.len() == BYTES_PER_SETUP_G2,
                i <= FIELD_ELEMENTS_PER_BLOB,
                pts@.len() == i,
                forall|j: int| 0 <= j < i ==> (#[trigger] pts@[j])@ == g1_chunk(g1@, j),
                forall|j: int| 0 <= j < i ==> is_g1_point(#[trigger] g1_chunk(g1@, j)),
            decreases FIELD_ELEMENTS_PER_BLOB - i,
        {
            let off: usize = i * BYTES_PER_G1_POINT;
            let chunk = vstd::slice::slice_subrange(g1, off, off + BYTES_PER_G1_POINT);
            assert(chunk@ == g1_chunk(g1@, i as int));
            match decode_g1(chunk) {
                Ok(p) => {
                    pts.push(p);
                },
                Err(_) => {
                    assert(!is_g1_point(g1_chunk(g1@, i as int)));
                    assert(!all_g1_points(g1@));
                    return Err(Error::InvalidPoint);
                },
            }
            i = i + 1;
        }
        let mut g2_pts: Vec<[u8; 96]> = Vec::with_capacity(NUM_G2_POINTS);
        let mut i: usize = 0;
        while i < NUM_G2_POINTS
            invariant
                g1@.len() == BYTES_PER_SETUP_G1,
                g2@.len() == BYTES_PER_SETUP_G2,
                all_g1_points(g1@),
                i <= NUM_G2_POINTS,
                g2_pts@.len() == i,
                forall|j: int| 0 <= j < i ==> (#[trigger] g2_pts@[j])@ == g2_chunk(g2@, j),
                forall|j: int| 0 <= j < i ==> is_g2_point(#[trigger] g2_chunk(g2@, j)),
            decreases NUM_G2_POINTS - i,
        {
            let off: usize = i * BYTES_PER_G2_POINT;
            let chunk = vstd::slice::slice_subrange(g2, off, off + BYTES_PER_G2_POINT);
            assert(chunk@ == g2_chunk(g2@, i as int));
            match decode_g2(chunk) {
                Ok(p) => {
                    g2_pts.push(p);
                },
                Err(_) => {
                    assert(!is_g2_point(g2_chunk(g2@, i as int)));
                    assert(!all_g2_points(g2@));
                    return Err(Error::InvalidPoint);
                },
            }
            i = i + 1;
        }
        if !g1_point_valid(&neg_g1_generator_bytes()) {
            return Err(Error::InvalidPoint);
        }
        let s = TrustedSetup { g1_lagrange: pts, g2_monomial: g2_pts };
        assert(s.g1_points() =~= g1_chunks(g1@));
        assert(s.g2_points() =~= g2_chunks(g2@));
        Ok(s)
    }

    /// The setup's G1 points, each in the G1 subgroup.
    pub fn g1_lagrange(&self) -> (r: &Vec<Bytes48>)
        ensures
            points_view(r@) == self.g1_points(),
            r@.len() == FIELD_ELEMENTS_PER_BLOB,
            forall|i: int| 0 <= i < r@.len() ==> is_g1_point(#[trigger] r@[i]@),
    {
        proof {
            use_type_invariant(self);
        }
        &self.g1_lagrange
    }

    /// The G2 generator and its multiple by the secret, the first two G2
    /// points.
    pub fn g2_pair(&self) -> (r: ([u8; 96], [u8; 96]))
        ensures
            self.g2_points().len() == NUM_G2_POINTS,
            r.0@ == self.g2_points()[0],
            r.1@ == self.g2_points()[1],
            is_g2_point(r.0@),
            is_g2_point(r.1@),
    {
        proof {
            use_type_invariant(self);
        }
        (self.g2_monomial[0], self.g2_monomial[1])
    }

    /// The negated G1 generator, which is a point of the G1 subgroup.
    pub fn neg_g1(&self) -> (r: Bytes48)
        ensures
            r@ == neg_g1_generator(),
            is_g1_point(r@),
    {
        proof {
            use_type_invariant(self);
        }
        Bytes48::from_array(neg_g1_generator_bytes())
    }
}

} // verus!
