//! The accumulator of deferred pairing checks.
//!
//! A claim says that a committed polynomial has a given value at a given
//! point. It enters the batch as three parts that share one coefficient: the
//! opening proof, the commitment and the claimed value. One pairing check
//! over the four sums of the batch then stands for all claims at once.

use crate::field::fadd;
use crate::field::fmul;
use crate::field::fneg;
use crate::field::Scalar;
use crate::group::g2_neg_of;
use crate::group::multiexp;
use crate::group::multiexp_of;
use crate::group::pairing_product_is_one;
use crate::group::pairing_product_of;
use crate::group::terms_view;
use crate::group::G1Point;
use crate::group::G2Point;
use crate::srs::Srs;
use crate::srs::SrsView;
use vstd::prelude::*;

verus! {

/// What a batch holds, as plain values.
pub struct BatchView {
    /// The opening proofs with their coefficients, paired with `h^(alpha x)`.
    pub alpha_x: Seq<(Seq<u8>, nat)>,
    /// The opening proofs with their coefficients times the negated points,
    /// paired with `h^alpha`.
    pub alpha: Seq<(Seq<u8>, nat)>,
    /// The commitments of full degree, paired with `h^-1`.
    pub neg_h: Seq<(Seq<u8>, nat)>,
    /// The commitments bounded to the degree `n`, paired with
    /// `h^(-x^(n-d))`.
    pub neg_x_n_minus_d: Seq<(Seq<u8>, nat)>,
    /// The sum of the claimed values, each times its coefficient.
    pub value: nat,
    /// The generator of the first group.
    pub g: Seq<u8>,
    /// `h^(alpha x)`.
    pub h_alpha_x: Seq<u8>,
    /// `h^alpha`.
    pub h_alpha: Seq<u8>,
    /// `h`.
    pub h: Seq<u8>,
    /// `h^(x^(n-d))`.
    pub h_x_n_minus_d: Seq<u8>,
}

impl BatchView {
    /// The empty batch over a reference string, for commitments bounded to
    /// the degree `n`.
    pub open spec fn empty(srs: SrsView, n: nat) -> BatchView {
        BatchView {
            alpha_x: Seq::empty(),
            alpha: Seq::empty(),
            neg_h: Seq::empty(),
            neg_x_n_minus_d: Seq::empty(),
            value: 0,
            g: srs.g,
            h_alpha_x: srs.h_alpha_x,
            h_alpha: srs.h_alpha,
            h: srs.h_negative_x[0],
            h_x_n_minus_d: srs.h_negative_x[srs.d - n],
        }
    }

    /// The batch with the opening proof `p` at `point`, scaled by `r`.
    pub open spec fn opening(self, p: Seq<u8>, r: nat, point: nat) -> BatchView {
        BatchView {
            alpha_x: self.alpha_x.push((p, r)),
            alpha: self.alpha.push((p, fneg(fmul(r, point)))),
            ..self
        }
    }

    /// The batch with the commitment `p` of full degree, scaled by `r`.
    pub open spec fn commitment(self, p: Seq<u8>, r: nat) -> BatchView {
        BatchView { neg_h: self.neg_h.push((p, r)), ..self }
    }

    /// The batch with the commitment `p` bounded to the degree `n`, scaled
    /// by `r`.
    pub open spec fn commitment_max_n(self, p: Seq<u8>, r: nat) -> BatchView {
        BatchView { neg_x_n_minus_d: self.neg_x_n_minus_d.push((p, r)), ..self }
    }

    /// The batch with the claimed value `value`, scaled by `r`.
    pub open spec fn opening_value(self, value: nat, r: nat) -> BatchView {
        BatchView { value: fadd(self.value, fmul(value, r)), ..self }
    }

    /// The verdict on the batch: whether the product of the four pairings
    /// is the identity, where each of the four sums of the batch is paired
    /// with its element of the reference string. It is `false` where some
    /// point does not decode.
    pub open spec fn verdict(self) -> bool {
        match (
            multiexp_of(self.alpha_x),
            multiexp_of(self.alpha.push((self.g, self.value))),
            multiexp_of(self.neg_h),
            multiexp_of(self.neg_x_n_minus_d),
            g2_neg_of(self.h),
            g2_neg_of(self.h_x_n_minus_d),
        ) {
            (Some(a1), Some(a2), Some(a3), Some(a4), Some(neg_h), Some(neg_hx)) => {
                pairing_product_of(
                    seq![a1, a2, a3, a4],
                    seq![self.h_alpha_x, self.h_alpha, neg_h, neg_hx],
                ) == Some(true)
            },
            _ => false,
        }
    }
}

/// The accumulator of the claims that one pairing check will settle.
#[derive(Debug)]
pub struct Batch {
    alpha_x: Vec<(G1Point, Scalar)>,
    alpha: Vec<(G1Point, Scalar)>,
    neg_h: Vec<(G1Point, Scalar)>,
    neg_x_n_minus_d: Vec<(G1Point, Scalar)>,
    value: Scalar,
    g: G1Point,
    h_alpha_x: G2Point,
    h_alpha: G2Point,
    h: G2Point,
    h_x_n_minus_d: G2Point,
}

impl View for Batch {
    type V = BatchView;

    closed spec fn view(&self) -> BatchView {
        BatchView {
            alpha_x: terms_view(self.alpha_x@),
            alpha: terms_view(self.alpha@),
            neg_h: terms_view(self.neg_h@),
            neg_x_n_minus_d: terms_view(self.neg_x_n_minus_d@),
            value: self.value@,
            g: self.g@,
            h_alpha_x: self.h_alpha_x@,
            h_alpha: self.h_alpha@,
            h: self.h@,
            h_x_n_minus_d: self.h_x_n_minus_d@,
        }
    }
}

impl Batch {
    /// The empty batch over a reference string, for commitments bounded to
    /// the degree `n`; nothing where the string does not support that
    /// degree.
    pub fn new(srs: &Srs, n: usize) -> (r: Option<Batch>)
        ensures
            r is Some <==> srs@.supports(n as nat),
            r is Some ==> r->0@ == BatchView::empty(srs@, n as nat),
    {
        if n > srs.d || srs.d - n >= srs.h_negative_x.len() {
            return None;
        }
        let batch = Batch {
            alpha_x: Vec::new(),
            alpha: Vec::new(),
            neg_h: Vec::new(),
            neg_x_n_minus_d: Vec::new(),
            value: Scalar::zero(),
            g: srs.g,
            h_alpha_x: srs.h_alpha_x,
            h_alpha: srs.h_alpha,
            h: srs.h_negative_x[0],
            h_x_n_minus_d: srs.h_negative_x[srs.d - n],
        };
        assert(batch@.alpha_x =~= Seq::empty());
        assert(batch@.alpha =~= Seq::empty());
        assert(batch@.neg_h =~= Seq::empty());
        assert(batch@.neg_x_n_minus_d =~= Seq::empty());
        Some(batch)
    }

    /// Registers the opening proof `p` of a claim at `point`, scaled by the
    /// claim's coefficient `r`.
    pub fn add_opening(&mut self, p: G1Point, r: Scalar, point: Scalar)
        ensures
            final(self)@ == old(self)@.opening(p@, r@, point@),
    {
        self.alpha_x.push((p, r));
        let scaled = r.mul(&point).neg();
        self.alpha.push((p, scaled));
        assert(terms_view(self.alpha_x@) =~= terms_view(old(self).alpha_x@).push((p@, r@)));
        assert(terms_view(self.alpha@) =~= terms_view(old(self).alpha@).push((p@, scaled@)));
    }

    /// Registers the commitment `p` of full degree, scaled by the claim's
    /// coefficient `r`.
    pub fn add_commitment(&mut self, p: G1Point, r: Scalar)
        ensures
            final(self)@ == old(self)@.commitment(p@, r@),
    {
        self.neg_h.push((p, r));
        assert(terms_view(self.neg_h@) =~= terms_view(old(self).neg_h@).push((p@, r@)));
    }

    /// Registers the commitment `p` that is bounded to the degree `n`,
    /// scaled by the claim's coefficient `r`.
    pub fn add_commitment_max_n(&mut self, p: G1Point, r: Scalar)
        ensures
            final(self)@ == old(self)@.commitment_max_n(p@, r@),
    {
        self.neg_x_n_minus_d.push((p, r));
        assert(terms_view(self.neg_x_n_minus_d@) =~= terms_view(old(self).neg_x_n_minus_d@).push(
            (p@, r@),
        ));
    }

    /// Registers the claimed value of a claim, scaled by the claim's
    /// coefficient `r`.
    pub fn add_opening_value(&mut self, value: Scalar, r: Scalar)
        ensures
            final(self)@ == old(self)@.opening_value(value@, r@),
    {
        self.value = self.value.add(&value.mul(&r));
    }

    /// The one pairing check that stands for all claims of the batch.
    pub fn check_all(self) -> (r: bool)
        ensures
            r == self@.verdict(),
    {
        let mut alpha = self.alpha;
        alpha.push((self.g, self.value));
        assert(terms_view(alpha@) =~= terms_view(self.alpha@).push((self.g@, self.value@)));
        let a1 = multiexp(&self.alpha_x);
        let a2 = multiexp(&alpha);
        let a3 = multiexp(&self.neg_h);
        let a4 = multiexp(&self.neg_x_n_minus_d);
        let neg_h = self.h.neg();
        let neg_hx = self.h_x_n_minus_d.neg();
        match (a1, a2, a3, a4, neg_h, neg_hx) {
            (Some(a1), Some(a2), Some(a3), Some(a4), Some(neg_h), Some(neg_hx)) => {
                let g1 = [a1, a2, a3, a4];
                let g2 = [self.h_alpha_x, self.h_alpha, neg_h, neg_hx];
                assert(crate::group::points_view(g1@) =~= seq![a1@, a2@, a3@, a4@]);
                assert(crate::group::points2_view(g2@) =~= seq![
                    self.h_alpha_x@,
                    self.h_alpha@,
                    neg_h@,
                    neg_hx@,
                ]);
                pairing_product_is_one(&g1, &g2)
            },
            _ => false,
        }
    }
}

} // verus!
