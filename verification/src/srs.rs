//! The part of the structured reference string that a verifier reads.

use crate::group::points2_view;
use crate::group::G1Point;
use crate::group::G2Point;
use vstd::prelude::*;

verus! {

/// The elements of a reference string for polynomials of degree up to `d`
/// that verification pairs against. With `g` and `h` the generators of the
/// two groups and `x`, `alpha` the secrets of the setup: `g`, the powers
/// `h^(x^-i)` for `i` in `0..=d`, `h^alpha` and `h^(alpha x)`.
#[derive(Clone, Debug, PartialEq, Eq)]
pub struct Srs {
    /// The largest degree that the string supports.
    pub d: usize,
    /// The generator of the first group.
    pub g: G1Point,
    /// `h^(x^-i)` at index `i`.
    pub h_negative_x: Vec<G2Point>,
    /// `h^alpha`.
    pub h_alpha: G2Point,
    /// `h^(alpha x)`.
    pub h_alpha_x: G2Point,
}

/// A reference string as plain values.
pub struct SrsView {
    pub d: nat,
    pub g: Seq<u8>,
    pub h_negative_x: Seq<Seq<u8>>,
    pub h_alpha: Seq<u8>,
    pub h_alpha_x: Seq<u8>,
}

impl View for Srs {
    type V = SrsView;

    open spec fn view(&self) -> SrsView {
        SrsView {
            d: self.d as nat,
            g: self.g@,
            h_negative_x: points2_view(self.h_negative_x@),
            h_alpha: self.h_alpha@,
            h_alpha_x: self.h_alpha_x@,
        }
    }
}

impl SrsView {
    /// Whether the string holds the element that bounds a polynomial to
    /// degree `n`.
    pub open spec fn supports(self, n: nat) -> bool {
        n <= self.d && self.d - n < self.h_negative_x.len()
    }
}

} // verus!
