//! What a prover hands to the verifier.

use crate::field::Scalar;
use crate::group::terms_view;
use crate::group::G1Point;
use vstd::prelude::*;

verus! {

/// A proof of the identity `t(z, y) = (r(z, y) + s(z, y)) r(z, 1) - k(y)` at
/// a point `(z, y)` that the transcript gives.
#[derive(Clone, Copy, Debug, PartialEq, Eq)]
pub struct Proof {
    /// The commitment to `r(X, 1)`.
    pub r: G1Point,
    /// The commitment to `t(X, y)`.
    pub t: G1Point,
    /// `r(z, 1)`.
    pub rz: Scalar,
    /// `r(z, y)`.
    pub rzy: Scalar,
    /// The opening of `t(X, y)` and `r(X, 1)` at `z`.
    pub z_opening: G1Point,
    /// The opening of `r(X, 1)` at `zy`.
    pub zy_opening: G1Point,
}

/// A proof as plain values.
pub struct ProofView {
    pub r: Seq<u8>,
    pub t: Seq<u8>,
    pub rz: nat,
    pub rzy: nat,
    pub z_opening: Seq<u8>,
    pub zy_opening: Seq<u8>,
}

impl View for Proof {
    type V = ProofView;

    open spec fn view(&self) -> ProofView {
        ProofView {
            r: self.r@,
            t: self.t@,
            rz: self.rz@,
            rzy: self.rzy@,
            z_opening: self.z_opening@,
            zy_opening: self.zy_opening@,
        }
    }
}

/// The value of `s` at a proof's point, supplied from outside and opened on
/// its own, which spares the verifier the evaluation of `s`.
#[derive(Clone, Copy, Debug, PartialEq, Eq)]
pub struct SxyAdvice {
    /// The commitment to `s(X, y)`.
    pub s: G1Point,
    /// `s(z, y)`.
    pub szy: Scalar,
    /// The opening of `s(X, y)` at `z`.
    pub opening: G1Point,
}

/// An advice as plain values.
pub struct SxyAdviceView {
    pub s: Seq<u8>,
    pub szy: nat,
    pub opening: Seq<u8>,
}

impl View for SxyAdvice {
    type V = SxyAdviceView;

    open spec fn view(&self) -> SxyAdviceView {
        SxyAdviceView { s: self.s@, szy: self.szy@, opening: self.opening@ }
    }
}

/// What lets several proofs share one commitment to `s(z, Y)`, opened once
/// for each proof at the proof's own `y`.
#[derive(Clone, Debug, PartialEq, Eq)]
pub struct Aggregate {
    /// The commitment to `s(z, Y)`.
    pub c: G1Point,
    /// The opening of the combined advice commitments at `z`.
    pub s_opening: G1Point,
    /// For each proof the opening of `c` at the proof's `y`, with the value
    /// there.
    pub c_openings: Vec<(G1Point, Scalar)>,
    /// The opening of `c` at `w`.
    pub opening: G1Point,
}

/// An aggregate as plain values.
pub struct AggregateView {
    pub c: Seq<u8>,
    pub s_opening: Seq<u8>,
    pub c_openings: Seq<(Seq<u8>, nat)>,
    pub opening: Seq<u8>,
}

impl View for Aggregate {
    type V = AggregateView;

    open spec fn view(&self) -> AggregateView {
        AggregateView {
            c: self.c@,
            s_opening: self.s_opening@,
            c_openings: terms_view(self.c_openings@),
            opening: self.opening@,
        }
    }
}

/// The views of a sequence of proofs with their advices.
pub open spec fn pairs_view(pairs: Seq<(Proof, SxyAdvice)>) -> Seq<(ProofView, SxyAdviceView)> {
    pairs.map_values(|p: (Proof, SxyAdvice)| (p.0@, p.1@))
}

} // verus!
