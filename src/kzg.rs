use vstd::prelude::*;

use crate::blob::Blob;
use crate::bytes::{Bytes32, Bytes48};
use crate::error::Error;
use crate::field::{is_canonical, is_canonical_at};
use crate::point::{g1_point_valid, is_g1_point, is_g2_point, KzgCommitment};
use crate::setup::{neg_g1_generator, points_view, TrustedSetup};

verus! {

/// The compressed encoding of the linear combination of the G1 `points` with
/// the scalars read, 32 little-endian bytes each, from `scalars`.
pub uninterp spec fn g1_lincomb(points: Seq<Seq<u8>>, scalars: Seq<u8>) -> Seq<u8>;

/// Relies on blst's multi-scalar multiplication of G1 points
/// (`blst::MultiPoint::mult` on a slice of `blst::min_sig::Signature`, that is
/// of G1 points), on 255-bit little-endian scalars, and on the compression of
/// the resulting point. The points decompress because each is a valid
/// compressed G1 point; the multiplication indexes its first point, so there
/// is at least one. A combination of points of the subgroup lies in the
/// subgroup, and its compressed encoding decodes again.
#[verifier::external_body]
fn g1_lincomb_bytes(points: &Vec<Bytes48>, scalars: &Vec<u8>) -> (r: [u8; 48])
    requires
        points@.len() > 0,
        scalars@.len() == 32 * points@.len(),
        forall|i: int| 0 <= i < points@.len() ==> is_g1_point(#[trigger] points@[i]@),
    ensures
        r@ == g1_lincomb(points_view(points@), scalars@),
        is_g1_point(r@),
{
    let mut decoded: Vec<blst::min_sig::Signature> = Vec::with_capacity(points.len());
    for p in points.iter() {
        decoded.push(blst::min_sig::Signature::uncompress(&p.to_bytes()).unwrap());
    }
    let sum = blst::MultiPoint::mult(decoded.as_slice(), scalars.as_slice(), 255);
    blst::min_sig::Signature::from_aggregate(&sum).compress()
}

/// The bytes of `b` with each 32-byte big-endian field element turned
/// little-endian.
pub open spec fn le_scalars(b: Seq<u8>) -> Seq<u8> {
    Seq::new(b.len(), |i: int| b[32 * (i / 32) + 31 - i % 32])
}

/// The commitment to the blob `b` under the G1 setup points `points`: the
/// combination of the points weighted by the blob's field elements.
pub open spec fn commitment_of(points: Seq<Seq<u8>>, b: Seq<u8>) -> Seq<u8> {
    g1_lincomb(points, le_scalars(b))
}

/// Turns each 32-byte big-endian field element of `b` little-endian.
fn le_scalar_bytes(b: &[u8]) -> (r: Vec<u8>)
    requires
        b@.len() % 32 == 0,
    ensures
        r@ == le_scalars(b@),
{
    let n = b.len();
    let mut scalars: Vec<u8> = Vec::with_capacity(n);
    let mut i: usize = 0;
    while i < n
        invariant
            n == b@.len(),
            n % 32 == 0,
            i <= n,
            scalars@.len() == i,
            forall|j: int| 0 <= j < i ==> scalars@[j] == le_scalars(b@)[j],
        decreases n - i,
    {
        let k: usize = i / 32;
        let j: usize = i % 32;
        assert(k * 32 + 31 < n && j < 32 && k * 32 <= i) by (bit_vector)
            requires
                i < n,
                n % 32 == 0,
                k == i / 32,
                j == i % 32,
        ;
        scalars.push(b[k * 32 + 31 - j]);
        i = i + 1;
    }
    assert(scalars@ =~= le_scalars(b@));
    scalars
}

/// Commits to a blob: the multi-scalar multiplication of the setup's G1
/// points with the blob's field elements.
pub fn blob_to_kzg_commitment(blob: &Blob, setup: &TrustedSetup) -> (r: KzgCommitment)
    ensures
        r@ == commitment_of(setup.g1_points(), blob@),
{
    let bytes = blob.as_slice();
    let scalars = le_scalar_bytes(bytes);
    let points = setup.g1_lagrange();
    let raw = g1_lincomb_bytes(points, &scalars);
    KzgCommitment::from_point(raw)
}

/// Committing is a function of the blob and the setup: two commitments to
/// the same blob under the same setup are the same bytes.
pub proof fn lemma_commitment_deterministic(
    points: Seq<Seq<u8>>,
    b: Seq<u8>,
    c1: Seq<u8>,
    c2: Seq<u8>,
)
    requires
        c1 == commitment_of(points, b),
        c2 == commitment_of(points, b),
    ensures
        c1 == c2,
{
}

/// Whether blst's pairing check finds `e(p1, q1) == e(p2, q2)` for the
/// compressed G1 points `p1`, `p2` and G2 points `q1`, `q2`.
pub uninterp spec fn pairings_equal(p1: Seq<u8>, q1: Seq<u8>, p2: Seq<u8>, q2: Seq<u8>) -> bool;

/// Relies on `blst::blst_fp12::miller_loop` for each pair and on
/// `blst::blst_fp12::finalverify`, which compares the two Miller loop values
/// after the final exponentiation. The points decompress because each is a
/// valid compressed point.
#[verifier::external_body]
fn pairing_check(p1: &[u8; 48], q1: &[u8; 96], p2: &[u8; 48], q2: &[u8; 96]) -> (r: bool)
    requires
        is_g1_point(p1@),
        is_g2_point(q1@),
        is_g1_point(p2@),
        is_g2_point(q2@),
    ensures
        r == pairings_equal(p1@, q1@, p2@, q2@),
{
    let a: blst::blst_p1_affine = blst::min_sig::Signature::uncompress(p1).unwrap().into();
    let b: blst::blst_p2_affine = blst::min_sig::PublicKey::uncompress(q1).unwrap().into();
    let c: blst::blst_p1_affine = blst::min_sig::Signature::uncompress(p2).unwrap().into();
    let d: blst::blst_p2_affine = blst::min_sig::PublicKey::uncompress(q2).unwrap().into();
    let lhs = blst::blst_fp12::miller_loop(&b, &a);
    blst::blst_fp12::finalverify(&lhs, &blst::blst_fp12::miller_loop(&d, &c))
}

/// The field element one, in 32 big-endian bytes.
pub open spec fn one_be() -> Seq<u8> {
    Seq::new(32, |i: int| if i == 31 { 1u8 } else { 0u8 })
}

/// The G1 point `c + z * proof - y * g1` whose pairing with the G2
/// generator is compared with that of `proof` and the secret's G2 point.
pub open spec fn kzg_lhs_point(c: Seq<u8>, z: Seq<u8>, y: Seq<u8>, proof: Seq<u8>) -> Seq<u8> {
    g1_lincomb(seq![c, proof, neg_g1_generator()], le_scalars(one_be() + z + y))
}

/// What verifying the claim that the polynomial committed to by `c` takes
/// the value `y` at `z`, with the opening proof `proof`, yields under the G2
/// points `g2`: an error for a commitment or proof that is not a point of
/// the G1 subgroup or a non-canonical `z` or `y`; otherwise whether
/// `e(c - y * g1, g2[0]) == e(proof, g2[1] - z * g2[0])`, checked as
/// `e(c + z * proof - y * g1, g2[0]) == e(proof, g2[1])`.
pub open spec fn kzg_verify(
    c: Seq<u8>,
    z: Seq<u8>,
    y: Seq<u8>,
    proof: Seq<u8>,
    g2: Seq<Seq<u8>>,
) -> Result<bool, Error> {
    match opening_error(c, z, y, proof) {
        Some(e) => Err(e),
        None => Ok(pairings_equal(kzg_lhs_point(c, z, y, proof), g2[0], proof, g2[1])),
    }
}

/// What is wrong with an opening claim, checked in the order commitment,
/// point, value, proof; `None` where it is well formed.
pub open spec fn opening_error(c: Seq<u8>, z: Seq<u8>, y: Seq<u8>, proof: Seq<u8>) -> Option<
    Error,
> {
    if !is_g1_point(c) {
        Some(Error::InvalidPoint)
    } else if !is_canonical(z) || !is_canonical(y) {
        Some(Error::NonCanonicalFieldElement)
    } else if !is_g1_point(proof) {
        Some(Error::InvalidPoint)
    } else {
        None
    }
}

/// Checks an opening claim for malformed parts, and where there is none
/// computes `c + z * proof - y * g1`.
fn opening_point(
    commitment: &Bytes48,
    z: &Bytes32,
    y: &Bytes32,
    proof: &Bytes48,
    setup: &TrustedSetup,
) -> (r: Result<Bytes48, Error>)
    ensures
        match r {
            Ok(p) => opening_error(commitment@, z@, y@, proof@) is None && p@ == kzg_lhs_point(
                commitment@,
                z@,
                y@,
                proof@,
            ) && is_g1_point(p@),
            Err(e) => opening_error(commitment@, z@, y@, proof@) == Some(e),
        },
{
    let c_raw = commitment.to_bytes();
    let z_raw = z.to_bytes();
    let y_raw = y.to_bytes();
    let p_raw = proof.to_bytes();
    if !g1_point_valid(&c_raw) {
        return Err(Error::InvalidPoint);
    }
    assert(z_raw@.subrange(0, 32) =~= z_raw@);
    assert(y_raw@.subrange(0, 32) =~= y_raw@);
    if !is_canonical_at(&z_raw, 0) || !is_canonical_at(&y_raw, 0) {
        return Err(Error::NonCanonicalFieldElement);
    }
    if !g1_point_valid(&p_raw) {
        return Err(Error::InvalidPoint);
    }
    let mut be: Vec<u8> = Vec::with_capacity(96);
    let mut i: usize = 0;
    while i < 96
        invariant
            i <= 96,
            be@.len() == i,
            z_raw@.len() == 32,
            y_raw@.len() == 32,
            forall|j: int| 0 <= j < i ==> be@[j] == (one_be() + z_raw@ + y_raw@)[j],
        decreases 96 - i,
    {
        if i < 32 {
            be.push(if i == 31 {
                1
            } else {
                0
            });
        } else if i < 64 {
            be.push(z_raw[i - 32]);
        } else {
            be.push(y_raw[i - 64]);
        }
        i = i + 1;
    }
    assert(be@ =~= one_be() + z_raw@ + y_raw@);
    let scalars = le_scalar_bytes(be.as_slice());
    let mut points: Vec<Bytes48> = Vec::with_capacity(3);
    points.push(*commitment);
    points.push(*proof);
    points.push(setup.neg_g1());
    assert(points_view(points@) =~= seq![commitment@, proof@, neg_g1_generator()]);
    Ok(Bytes48::from_array(g1_lincomb_bytes(&points, &scalars)))
}

/// Verifies that the polynomial committed to by `commitment` takes the value
/// `y` at `z`, given the opening proof `proof`. Malformed input is an error;
/// `Ok(false)` is a well-formed claim that does not hold.
pub fn verify_kzg_proof(
    commitment: &Bytes48,
    z: &Bytes32,
    y: &Bytes32,
    proof: &Bytes48,
    setup: &TrustedSetup,
) -> (r: Result<bool, Error>)
    ensures
        r == kzg_verify(commitment@, z@, y@, proof@, setup.g2_points()),
{
    match opening_point(commitment, z, y, proof, setup) {
        Ok(lhs) => {
            let (g2_gen, g2_s) = setup.g2_pair();
            let p_raw = proof.to_bytes();
            Ok(pairing_check(&lhs.to_bytes(), &g2_gen, &p_raw, &g2_s))
        },
        Err(e) => Err(e),
    }
}

/// The scalars of a sequence of 32-byte values.
pub open spec fn scalars_view(v: Seq<Bytes32>) -> Seq<Seq<u8>> {
    v.map_values(|x: Bytes32| x@)
}

/// The byte strings of `rs`, one after another.
pub open spec fn concat(rs: Seq<Seq<u8>>) -> Seq<u8>
    decreases rs.len(),
{
    if rs.len() == 0 {
        Seq::empty()
    } else {
        concat(rs.drop_last()) + rs.last()
    }
}

/// What is wrong with the `i`-th claim of a batch: its opening, then its
/// coefficient; `None` where it is well formed.
pub open spec fn batch_item_error(
    cs: Seq<Seq<u8>>,
    zs: Seq<Seq<u8>>,
    ys: Seq<Seq<u8>>,
    ps: Seq<Seq<u8>>,
    rs: Seq<Seq<u8>>,
    i: int,
) -> Option<Error> {
    match opening_error(cs[i], zs[i], ys[i], ps[i]) {
        Some(e) => Some(e),
        None => if !is_canonical(rs[i]) {
            Some(Error::NonCanonicalFieldElement)
        } else {
            None
        },
    }
}

/// The one pairing check of a batch of well-formed claims weighted by the
/// coefficients `rs`: `e(sum of rs[i] * (cs[i] + zs[i] * ps[i] - ys[i] * g1),
/// g2[0]) == e(sum of rs[i] * ps[i], g2[1])`.
pub open spec fn batch_pairing(
    cs: Seq<Seq<u8>>,
    zs: Seq<Seq<u8>>,
    ys: Seq<Seq<u8>>,
    ps: Seq<Seq<u8>>,
    rs: Seq<Seq<u8>>,
    g2: Seq<Seq<u8>>,
) -> bool {
    let weights = le_scalars(concat(rs));
    let lhs = Seq::new(cs.len(), |i: int| kzg_lhs_point(cs[i], zs[i], ys[i], ps[i]));
    pairings_equal(g1_lincomb(lhs, weights), g2[0], g1_lincomb(ps, weights), g2[1])
}

/// Verifies many opening claims with one pairing check, each weighted by its
/// coefficient in `coefficients`, which the caller draws at random so that
/// a false claim cannot cancel against another. Sequences of different
/// lengths and malformed claims are errors (the first malformed one is
/// reported); an empty batch holds.
pub fn verify_kzg_proof_batch(
    commitments: &Vec<Bytes48>,
    zs: &Vec<Bytes32>,
    ys: &Vec<Bytes32>,
    proofs: &Vec<Bytes48>,
    coefficients: &Vec<Bytes32>,
    setup: &TrustedSetup,
) -> (r: Result<bool, Error>)
    ensures
        ({
            let cs = points_view(commitments@);
            let zv = scalars_view(zs@);
            let yv = scalars_view(ys@);
            let ps = points_view(proofs@);
            let rs = scalars_view(coefficients@);
            let n = cs.len();
            let same = zv.len() == n && yv.len() == n && ps.len() == n && rs.len() == n;
            match r {
                Ok(b) => same && (forall|i: int|
                    0 <= i < n ==> (#[trigger] batch_item_error(cs, zv, yv, ps, rs, i)) is None)
                    && b == (n == 0 || batch_pairing(cs, zv, yv, ps, rs, setup.g2_points())),
                Err(e) => (!same && e == Error::MismatchLength) || (same && exists|i: int|
                    0 <= i < n && batch_item_error(cs, zv, yv, ps, rs, i) == Some(e) && forall|
                        j: int,
                    |
                        0 <= j < i ==> (#[trigger] batch_item_error(cs, zv, yv, ps, rs, j)) is None),
            }
        }),
{
    let ghost cs = points_view(commitments@);
    let ghost zv = scalars_view(zs@);
    let ghost yv = scalars_view(ys@);
    let ghost ps = points_view(proofs@);
    let ghost rs = scalars_view(coefficients@);
    let n = commitments.len();
    if zs.len() != n || ys.len() != n || proofs.len() != n || coefficients.len() != n {
        return Err(Error::MismatchLength);
    }
    let mut lhs_points: Vec<Bytes48> = Vec::with_capacity(n);
    let mut be: Vec<u8> = Vec::new();
    let mut i: usize = 0;
    while i < n
        invariant
            n == cs.len(),
            zv.len() == n && yv.len() == n && ps.len() == n && rs.len() == n,
            cs == points_view(commitments@),
            zv == scalars_view(zs@),
            yv == scalars_view(ys@),
            ps == points_view(proofs@),
            rs == scalars_view(coefficients@),
            i <= n,
            lhs_points@.len() == i,
            be@.len() == 32 * i,
            be@ == concat(rs.subrange(0, i as int)),
            forall|j: int| 0 <= j < i ==> (#[trigger] batch_item_error(cs, zv, yv, ps, rs, j)) is None,
            forall|j: int|
                0 <= j < i ==> (#[trigger] lhs_points@[j])@ == kzg_lhs_point(cs[j], zv[j], yv[j], ps[j])
                    && is_g1_point(lhs_points@[j]@),
        decreases n - i,
    {
        match opening_point(&commitments[i], &zs[i], &ys[i], &proofs[i], setup) {
            Ok(p) => {
                lhs_points.push(p);
            },
            Err(e) => {
                assert(batch_item_error(cs, zv, yv, ps, rs, i as int) == Some(e));
                return Err(e);
            },
        }
        let r_raw = coefficients[i].to_bytes();
        assert(r_raw@.subrange(0, 32) =~= r_raw@);
        if !is_canonical_at(&r_raw, 0) {
            assert(batch_item_error(cs, zv, yv, ps, rs, i as int) == Some(
                Error::NonCanonicalFieldElement,
            ));
            return Err(Error::NonCanonicalFieldElement);
        }
        let ghost before = be@;
        let mut j: usize = 0;
        while j < 32
            invariant
                j <= 32,
                r_raw@.len() == 32,
                be@.len() == 32 * i + j,
                be@ == before + r_raw@.subrange(0, j as int),
            decreases 32 - j,
        {
            be.push(r_raw[j]);
            j = j + 1;
            assert(be@ =~= before + r_raw@.subrange(0, j as int));
        }
        assert(rs.subrange(0, i + 1).drop_last() =~= rs.subrange(0, i as int));
        assert(r_raw@.subrange(0, 32) =~= r_raw@);
        i = i + 1;
    }
    if n == 0 {
        return Ok(true);
    }
    assert(rs.subrange(0, n as int) =~= rs);
    assert((32 * n) % 32 == 0) by (nonlinear_arith);
    let weights = le_scalar_bytes(be.as_slice());
    assert(points_view(lhs_points@) =~= Seq::new(
        cs.len(),
        |k: int| kzg_lhs_point(cs[k], zv[k], yv[k], ps[k]),
    ));
    assert forall|k: int| 0 <= k < proofs@.len() implies is_g1_point(#[trigger] proofs@[k]@) by {
        assert(batch_item_error(cs, zv, yv, ps, rs, k) is None);
    }
    let lhs = g1_lincomb_bytes(&lhs_points, &weights);
    let rhs = g1_lincomb_bytes(proofs, &weights);
    let (g2_gen, g2_s) = setup.g2_pair();
    Ok(pairing_check(&lhs, &g2_gen, &rhs, &g2_s))
}

} // verus!
