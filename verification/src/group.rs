//! The two source groups of BLS12-381 and the pairing check.
//!
//! A point is held in its compressed encoding, so any 48 (or 96) bytes form
//! a value; whether they encode a point of the group is found out when the
//! curve arithmetic of the `pairing` crate decodes them. What that arithmetic
//! returns is named here, not computed: the contracts of this library say
//! which of these operations are applied to which values.

use crate::field::limbs_value;
use crate::field::Scalar;
use ff::Field;
use group::CurveAffine;
use group::CurveProjective;
use group::EncodedPoint;
use pairing::bls12_381::Bls12;
use pairing::bls12_381::Fq12;
use pairing::bls12_381::FrRepr;
use pairing::bls12_381::G1Compressed;
use pairing::bls12_381::G2Compressed;
use pairing::Engine;
use pairing::PairingCurveAffine;
use vstd::prelude::*;

verus! {

/// A point of the first group in its compressed encoding.
#[derive(Clone, Copy, Debug, PartialEq, Eq)]
pub struct G1Point {
    pub bytes: [u8; 48],
}

impl View for G1Point {
    type V = Seq<u8>;

    open spec fn view(&self) -> Seq<u8> {
        self.bytes@
    }
}

/// A point of the second group in its compressed encoding.
#[derive(Clone, Copy, Debug, PartialEq, Eq)]
pub struct G2Point {
    pub bytes: [u8; 96],
}

impl View for G2Point {
    type V = Seq<u8>;

    open spec fn view(&self) -> Seq<u8> {
        self.bytes@
    }
}

/// The encoding of the product of a point of the first group and a scalar;
/// nothing where the bytes encode no point of the group.
pub uninterp spec fn g1_mul_of(p: Seq<u8>, s: nat) -> Option<Seq<u8>>;

/// The encoding of the sum of two points of the first group; nothing where
/// either encodes no point of the group.
pub uninterp spec fn g1_add_of(a: Seq<u8>, b: Seq<u8>) -> Option<Seq<u8>>;

/// The encoding of the inverse of a point of the second group; nothing where
/// the bytes encode no point of the group.
pub uninterp spec fn g2_neg_of(p: Seq<u8>) -> Option<Seq<u8>>;

/// Whether the product of the pairings of four pairs of points is the
/// identity of the target group; nothing where some bytes encode no point or
/// the pairing value has no inverse.
pub uninterp spec fn pairing_product_of(g1: Seq<Seq<u8>>, g2: Seq<Seq<u8>>) -> Option<bool>;

/// The encoding of the identity of the first group: the flags for
/// "compressed" and "infinity", and zeros.
pub open spec fn g1_identity_bytes() -> Seq<u8> {
    Seq::new(48, |i: int| if i == 0 { 0xc0u8 } else { 0u8 })
}

/// The view of a point that may be missing.
pub open spec fn g1_opt_view(p: Option<G1Point>) -> Option<Seq<u8>> {
    match p {
        Some(q) => Some(q@),
        None => None,
    }
}

/// The view of a point of the second group that may be missing.
pub open spec fn g2_opt_view(p: Option<G2Point>) -> Option<Seq<u8>> {
    match p {
        Some(q) => Some(q@),
        None => None,
    }
}

/// The views of a sequence of weighted points.
pub open spec fn terms_view(terms: Seq<(G1Point, Scalar)>) -> Seq<(Seq<u8>, nat)> {
    terms.map_values(|t: (G1Point, Scalar)| (t.0@, t.1@))
}

/// The sum of the points, each multiplied by its scalar, taken from the
/// left; nothing as soon as one operation gives nothing.
pub open spec fn multiexp_of(terms: Seq<(Seq<u8>, nat)>) -> Option<Seq<u8>>
    decreases terms.len(),
{
    if terms.len() == 0 {
        Some(g1_identity_bytes())
    } else {
        let last = terms.last();
        match (multiexp_of(terms.drop_last()), g1_mul_of(last.0, last.1)) {
            (Some(acc), Some(t)) => g1_add_of(acc, t),
            _ => None,
        }
    }
}

impl G1Point {
    /// The identity of the first group.
    pub fn identity() -> (r: G1Point)
        ensures
            r@ == g1_identity_bytes(),
    {
        let mut bytes = [0u8; 48];
        bytes[0] = 0xc0;
        let r = G1Point { bytes };
        assert(r@ =~= g1_identity_bytes());
        r
    }

    /// The product of this point and a scalar.
    pub fn mul(&self, s: &Scalar) -> (r: Option<G1Point>)
        ensures
            g1_opt_view(r) == g1_mul_of(self@, s@),
    {
        g1_mul(self, &s.to_limbs())
    }

    /// The sum of this point and another.
    pub fn add(&self, other: &G1Point) -> (r: Option<G1Point>)
        ensures
            g1_opt_view(r) == g1_add_of(self@, other@),
    {
        g1_add(self, other)
    }
}

impl G2Point {
    /// The inverse of this point.
    pub fn neg(&self) -> (r: Option<G2Point>)
        ensures
            g2_opt_view(r) == g2_neg_of(self@),
    {
        g2_neg(self)
    }
}

/// The sum of the points, each multiplied by its scalar.
pub fn multiexp(terms: &Vec<(G1Point, Scalar)>) -> (r: Option<G1Point>)
    ensures
        g1_opt_view(r) == multiexp_of(terms_view(terms@)),
{
    let mut acc = Some(G1Point::identity());
    let mut i: usize = 0;
    while i < terms.len()
        invariant
            i <= terms.len(),
            g1_opt_view(acc) == multiexp_of(terms_view(terms@).take(i as int)),
        decreases terms.len() - i,
    {
        let term = terms[i].0.mul(&terms[i].1);
        proof {
            let all = terms_view(terms@);
            assert(all.take(i + 1).drop_last() =~= all.take(i as int));
            assert(all.take(i + 1).last() == (terms[i as int].0@, terms[i as int].1@));
        }
        acc =
        match (acc, term) {
            (Some(a), Some(t)) => g1_add(&a, &t),
            _ => None,
        };
        i += 1;
    }
    proof {
        let all = terms_view(terms@);
        assert(all.take(terms.len() as int) =~= all);
    }
    acc
}

/// Whether the product of the pairings of the four pairs is the identity of
/// the target group; `false` also where the pairing cannot be computed.
pub fn pairing_product_is_one(g1: &[G1Point; 4], g2: &[G2Point; 4]) -> (r: bool)
    ensures
        r == (pairing_product_of(points_view(g1@), points2_view(g2@)) == Some(true)),
{
    match pairing_check(g1, g2) {
        Some(b) => b,
        None => false,
    }
}

/// The encodings of a sequence of points of the first group.
pub open spec fn points_view(points: Seq<G1Point>) -> Seq<Seq<u8>> {
    points.map_values(|p: G1Point| p@)
}

/// The encodings of a sequence of points of the second group.
pub open spec fn points2_view(points: Seq<G2Point>) -> Seq<Seq<u8>> {
    points.map_values(|p: G2Point| p@)
}

/// `CurveAffine::mul` on a decoded `G1Affine`, between `EncodedPoint::into_affine`
/// and `CurveAffine::into_compressed`: the result is a function of the
/// point's bytes and the number that the limbs stand for, and is missing
/// where decoding fails.
#[verifier::external_body]
fn g1_mul(p: &G1Point, limbs: &[u64; 4]) -> (r: Option<G1Point>)
    ensures
        g1_opt_view(r) == g1_mul_of(p@, limbs_value(limbs@)),
{
    let mut enc = G1Compressed::empty();
    enc.as_mut().copy_from_slice(&p.bytes);
    let product = enc.into_affine().ok()?.mul(FrRepr(*limbs));
    let mut bytes = [0u8; 48];
    bytes.copy_from_slice(product.into_affine().into_compressed().as_ref());
    Some(G1Point { bytes })
}

/// `CurveProjective::add_assign_mixed` on two decoded `G1Affine` points: the
/// result is a function of the bytes of the two, and is missing where
/// decoding fails.
#[verifier::external_body]
fn g1_add(a: &G1Point, b: &G1Point) -> (r: Option<G1Point>)
    ensures
        g1_opt_view(r) == g1_add_of(a@, b@),
{
    let mut ea = G1Compressed::empty();
    ea.as_mut().copy_from_slice(&a.bytes);
    let mut eb = G1Compressed::empty();
    eb.as_mut().copy_from_slice(&b.bytes);
    let mut sum = ea.into_affine().ok()?.into_projective();
    sum.add_assign_mixed(&eb.into_affine().ok()?);
    let mut bytes = [0u8; 48];
    bytes.copy_from_slice(sum.into_affine().into_compressed().as_ref());
    Some(G1Point { bytes })
}

/// `CurveAffine::negate` on a decoded `G2Affine`: the result is a function
/// of the point's bytes, and is missing where decoding fails.
#[verifier::external_body]
fn g2_neg(p: &G2Point) -> (r: Option<G2Point>)
    ensures
        g2_opt_view(r) == g2_neg_of(p@),
{
    let mut enc = G2Compressed::empty();
    enc.as_mut().copy_from_slice(&p.bytes);
    let mut point = enc.into_affine().ok()?;
    point.negate();
    let mut bytes = [0u8; 96];
    bytes.copy_from_slice(point.into_compressed().as_ref());
    Some(G2Point { bytes })
}

/// `Engine::miller_loop` and `Engine::final_exponentiation` of `Bls12` on
/// four decoded pairs, compared with the identity of the target group: the
/// result is a function of the bytes of the eight points, and is missing
/// where decoding fails or the exponentiation gives nothing.
#[verifier::external_body]
fn pairing_check(g1: &[G1Point; 4], g2: &[G2Point; 4]) -> (r: Option<bool>)
    ensures
        r == pairing_product_of(points_view(g1@), points2_view(g2@)),
{
    let mut pairs = Vec::new();
    for i in 0..4 {
        let mut a = G1Compressed::empty();
        a.as_mut().copy_from_slice(&g1[i].bytes);
        let mut b = G2Compressed::empty();
        b.as_mut().copy_from_slice(&g2[i].bytes);
        pairs.push((a.into_affine().ok()?.prepare(), b.into_affine().ok()?.prepare()));
    }
    let refs: Vec<_> = pairs.iter().map(|p| (&p.0, &p.1)).collect();
    Some(Bls12::final_exponentiation(&Bls12::miller_loop(refs.iter()))? == Fq12::one())
}

} // verus!
