//! The equation behind the pairing check.
//!
//! Write every point of the first group as a power `g^e` of the generator.
//! With the elements `h^(alpha x)`, `h^alpha`, `h` and `h^(x^(n-d))` of the
//! reference string, the product of the four pairings of a batch is then
//! `e(g, h)` raised to the [`exponent`] of the batch, and the check holds
//! where that exponent vanishes in the field.
//!
//! The laws of this module say that the claims of an honestly made proof
//! leave the exponent as it was. They speak of field elements only: that the
//! pairing of the curve computes this exponent is the bilinearity of the
//! pairing, which is not proved here. The laws that speak of the verdict
//! take it as a hypothesis, [`pairing_reflects`].

use crate::batch::BatchView;
use crate::field::congruent;
use crate::field::fmul;
use crate::field::fneg;
use crate::field::lemma_congruent_difference;
use crate::field::lemma_congruent_product;
use crate::field::lemma_congruent_sum;
use crate::field::lemma_fadd;
use crate::field::lemma_fmul;
use crate::field::lemma_fneg;
use crate::multiverifier::after_aggregate;
use crate::multiverifier::after_proof;
use crate::multiverifier::after_proof_with_advice;
use crate::multiverifier::aggregate_challenges;
use crate::multiverifier::drawn;
use crate::multiverifier::expected_value;
use crate::multiverifier::k_value;
use crate::multiverifier::lemma_advice_adds_one_claim;
use crate::multiverifier::proof_challenges;
use crate::multiverifier::shared_count;
use crate::multiverifier::t_value;
use crate::multiverifier::with_advice_claim;
use crate::multiverifier::with_advice_commitments;
use crate::multiverifier::with_aggregate_claims;
use crate::multiverifier::with_c_openings;
use crate::multiverifier::with_proof_claims;
use crate::multiverifier::MultiVerifierView;
use crate::poly::s_value;
use crate::protocol::AggregateView;
use crate::protocol::ProofView;
use crate::protocol::SxyAdviceView;
use crate::srs::SrsView;
use crate::transcript::challenge_of;
use vstd::prelude::*;

verus! {

/// The secrets of a setup and the exponents of the points of the first
/// group.
pub struct Secrets {
    /// The exponent of each encoded point over the generator `g`.
    pub log: spec_fn(Seq<u8>) -> int,
    /// The secret factor of the commitments.
    pub alpha: int,
    /// The secret point.
    pub x: int,
    /// `x^(d-n)`.
    pub x_d_minus_n: int,
    /// `x^(n-d)`.
    pub x_n_minus_d: int,
}

impl Secrets {
    /// Whether the two powers of `x` are inverse to each other.
    pub open spec fn wf(self) -> bool {
        congruent(self.x_d_minus_n * self.x_n_minus_d, 1)
    }
}

/// The exponent of the sum of the points, each multiplied by its scalar.
pub open spec fn weight(terms: Seq<(Seq<u8>, nat)>, log: spec_fn(Seq<u8>) -> int) -> int
    decreases terms.len(),
{
    if terms.len() == 0 {
        0
    } else {
        weight(terms.drop_last(), log) + terms.last().1 * log(terms.last().0)
    }
}

/// The exponent of the product of the four pairings of a batch over
/// `e(g, h)`.
pub open spec fn exponent(b: BatchView, s: Secrets) -> int {
    weight(b.alpha_x, s.log) * (s.alpha * s.x) + (weight(b.alpha, s.log) + b.value) * s.alpha
        - weight(b.neg_h, s.log) - weight(b.neg_x_n_minus_d, s.log) * s.x_n_minus_d
}

proof fn lemma_weight_push(
    terms: Seq<(Seq<u8>, nat)>,
    p: Seq<u8>,
    c: nat,
    log: spec_fn(Seq<u8>) -> int,
)
    ensures
        weight(terms.push((p, c)), log) == weight(terms, log) + c * log(p),
{
    assert(terms.push((p, c)).drop_last() =~= terms);
}

/// An opening proof `w` at `point` with the coefficient `c` adds
/// `c alpha log(w) (x - point)`.
pub proof fn lemma_opening(b: BatchView, w: Seq<u8>, c: nat, point: nat, s: Secrets)
    ensures
        congruent(
            exponent(b.opening(w, c, point), s),
            exponent(b, s) + c * (s.alpha * ((s.log)(w) * (s.x - point))),
        ),
{
    let lw = (s.log)(w);
    let negated = fneg(fmul(c, point));
    let ax = weight(b.alpha_x, s.log);
    let a = weight(b.alpha, s.log);
    lemma_weight_push(b.alpha_x, w, c, s.log);
    lemma_weight_push(b.alpha, w, negated, s.log);
    let after = b.opening(w, c, point);
    assert(exponent(after, s) == exponent(b, s) + (c * lw) * (s.alpha * s.x) + (negated * lw)
        * s.alpha) by (nonlinear_arith)
        requires
            exponent(after, s) == (ax + c * lw) * (s.alpha * s.x) + ((a + negated * lw) + b.value)
                * s.alpha - weight(b.neg_h, s.log) - weight(b.neg_x_n_minus_d, s.log)
                * s.x_n_minus_d,
            exponent(b, s) == ax * (s.alpha * s.x) + (a + b.value) * s.alpha - weight(
                b.neg_h,
                s.log,
            ) - weight(b.neg_x_n_minus_d, s.log) * s.x_n_minus_d,
    ;
    lemma_fneg(fmul(c, point));
    lemma_fmul(c, point);
    lemma_congruent_difference(0, 0, fmul(c, point) as int, (c * point) as int);
    lemma_congruent_product(negated as int, -((c * point) as int), lw, lw);
    lemma_congruent_product(negated * lw, (-((c * point) as int)) * lw, s.alpha, s.alpha);
    let base = exponent(b, s) + (c * lw) * (s.alpha * s.x);
    lemma_congruent_sum(
        base,
        base,
        (negated * lw) * s.alpha,
        ((-((c * point) as int)) * lw) * s.alpha,
    );
    assert((c * lw) * (s.alpha * s.x) + ((-((c * point) as int)) * lw) * s.alpha == c * (s.alpha
        * (lw * (s.x - point)))) by (nonlinear_arith);
}

/// A commitment `p` of full degree with the coefficient `c` takes
/// `c log(p)` away.
pub proof fn lemma_commitment(b: BatchView, p: Seq<u8>, c: nat, s: Secrets)
    ensures
        exponent(b.commitment(p, c), s) == exponent(b, s) - c * (s.log)(p),
{
    lemma_weight_push(b.neg_h, p, c, s.log);
}

/// A commitment `p` of bounded degree with the coefficient `c` takes
/// `c log(p) x^(n-d)` away.
pub proof fn lemma_commitment_max_n(b: BatchView, p: Seq<u8>, c: nat, s: Secrets)
    ensures
        exponent(b.commitment_max_n(p, c), s) == exponent(b, s) - (c * (s.log)(p))
            * s.x_n_minus_d,
{
    lemma_weight_push(b.neg_x_n_minus_d, p, c, s.log);
    let m = weight(b.neg_x_n_minus_d, s.log);
    let lp = (s.log)(p);
    assert((m + c * lp) * s.x_n_minus_d == m * s.x_n_minus_d + (c * lp) * s.x_n_minus_d)
        by (nonlinear_arith);
}

/// A claimed value `v` with the coefficient `c` adds `v c alpha`.
pub proof fn lemma_opening_value(b: BatchView, v: nat, c: nat, s: Secrets)
    ensures
        congruent(exponent(b.opening_value(v, c), s), exponent(b, s) + (v * c) * s.alpha),
{
    let sum = b.opening_value(v, c).value;
    let gain = sum - b.value;
    let a = weight(b.alpha, s.log);
    lemma_fadd(b.value, fmul(v, c));
    lemma_fmul(v, c);
    let old_value = b.value as int;
    lemma_congruent_sum(old_value, old_value, fmul(v, c) as int, (v * c) as int);
    lemma_congruent_difference(sum as int, old_value + v * c, old_value, old_value);
    lemma_congruent_product(gain, (v * c) as int, s.alpha, s.alpha);
    assert((a + sum) * s.alpha == (a + b.value) * s.alpha + gain * s.alpha) by (nonlinear_arith)
        requires
            gain == sum - b.value,
    ;
    let before = exponent(b, s);
    lemma_congruent_sum(before, before, gain * s.alpha, (v * c) * s.alpha);
}

/// The claim that a polynomial `f`, committed to in full degree, has the
/// value `v` at `point` leaves the exponent as it was where the commitment
/// is `g^(alpha f(x))` and the opening proof is `g^((f(x) - v) / (x -
/// point))`.
pub proof fn lemma_honest_claim(
    b: BatchView,
    w: Seq<u8>,
    commitment: Seq<u8>,
    v: nat,
    c: nat,
    point: nat,
    f_at_x: int,
    s: Secrets,
)
    requires
        congruent((s.log)(commitment), s.alpha * f_at_x),
        congruent((s.log)(w) * (s.x - point), f_at_x - v),
    ensures
        congruent(
            exponent(b.opening(w, c, point).commitment(commitment, c).opening_value(v, c), s),
            exponent(b, s),
        ),
{
    let lw = (s.log)(w);
    let lc = (s.log)(commitment);
    let b1 = b.opening(w, c, point);
    let b2 = b1.commitment(commitment, c);
    let b3 = b2.opening_value(v, c);
    let ci = c as int;
    lemma_opening(b, w, c, point, s);
    lemma_commitment(b1, commitment, c, s);
    lemma_opening_value(b2, v, c, s);
    // the opening, by what it is honest about
    lemma_congruent_product(s.alpha, s.alpha, lw * (s.x - point), f_at_x - v);
    lemma_congruent_product(
        ci,
        ci,
        s.alpha * (lw * (s.x - point)),
        s.alpha * (f_at_x - v),
    );
    // the commitment
    lemma_congruent_product(ci, ci, lc, s.alpha * f_at_x);
    let e0 = exponent(b, s);
    lemma_congruent_sum(
        e0,
        e0,
        ci * (s.alpha * (lw * (s.x - point))),
        ci * (s.alpha * (f_at_x - v)),
    );
    lemma_congruent_sum(
        exponent(b1, s),
        e0 + ci * (s.alpha * (f_at_x - v)),
        0,
        0,
    );
    lemma_congruent_difference(
        exponent(b1, s),
        e0 + ci * (s.alpha * (f_at_x - v)),
        ci * lc,
        ci * (s.alpha * f_at_x),
    );
    lemma_congruent_sum(
        exponent(b2, s),
        e0 + ci * (s.alpha * (f_at_x - v)) - ci * (s.alpha * f_at_x),
        (v * c) * s.alpha,
        (v * c) * s.alpha,
    );
    assert(e0 + ci * (s.alpha * (f_at_x - v)) - ci * (s.alpha * f_at_x) + (v * c) * s.alpha == e0)
        by (nonlinear_arith)
        requires
            ci == c,
    ;
}

/// The converse for one claim: where the claim leaves the exponent as it
/// was, the opening proof is an opening of the committed polynomial to the
/// claimed value, `log(w) (x - point) = f(x) - v` in the field. It is so
/// where the coefficient of the claim and the secret factor are not zero,
/// that is, have inverses.
pub proof fn lemma_claim_binds(
    b: BatchView,
    w: Seq<u8>,
    commitment: Seq<u8>,
    v: nat,
    c: nat,
    point: nat,
    f_at_x: int,
    c_inverse: int,
    alpha_inverse: int,
    s: Secrets,
)
    requires
        congruent((s.log)(commitment), s.alpha * f_at_x),
        congruent(c * c_inverse, 1),
        congruent(s.alpha * alpha_inverse, 1),
        congruent(
            exponent(b.opening(w, c, point).commitment(commitment, c).opening_value(v, c), s),
            exponent(b, s),
        ),
    ensures
        congruent((s.log)(w) * (s.x - point), f_at_x - v),
{
    let lw = (s.log)(w);
    let lc = (s.log)(commitment);
    let b1 = b.opening(w, c, point);
    let b2 = b1.commitment(commitment, c);
    let b3 = b2.opening_value(v, c);
    let ci = c as int;
    let e0 = exponent(b, s);
    let opened = lw * (s.x - point);
    lemma_opening(b, w, c, point, s);
    lemma_commitment(b1, commitment, c, s);
    lemma_opening_value(b2, v, c, s);
    lemma_congruent_product(ci, ci, lc, s.alpha * f_at_x);
    lemma_congruent_difference(
        exponent(b1, s),
        e0 + ci * (s.alpha * opened),
        ci * lc,
        ci * (s.alpha * f_at_x),
    );
    lemma_congruent_sum(
        exponent(b2, s),
        e0 + ci * (s.alpha * opened) - ci * (s.alpha * f_at_x),
        (v * c) * s.alpha,
        (v * c) * s.alpha,
    );
    // the exponent has moved by `c alpha gap`
    let gap = opened - (f_at_x - v);
    assert(e0 + ci * (s.alpha * opened) - ci * (s.alpha * f_at_x) + (v * c) * s.alpha == e0 + (ci
        * s.alpha) * gap) by (nonlinear_arith)
        requires
            ci == c,
            gap == opened - (f_at_x - v),
    ;
    lemma_congruent_difference(e0 + (ci * s.alpha) * gap, e0, e0, e0);
    assert(congruent((ci * s.alpha) * gap, 0));
    // and both factors can be taken away
    let inverse = c_inverse * alpha_inverse;
    lemma_congruent_product(ci * c_inverse, 1, s.alpha * alpha_inverse, 1);
    lemma_congruent_product(inverse, inverse, (ci * s.alpha) * gap, 0);
    assert(inverse * ((ci * s.alpha) * gap) == ((ci * c_inverse) * (s.alpha * alpha_inverse))
        * gap) by (nonlinear_arith)
        requires
            inverse == c_inverse * alpha_inverse,
    ;
    lemma_congruent_product((ci * c_inverse) * (s.alpha * alpha_inverse), 1, gap, gap);
    assert(inverse * 0 == 0);
    assert(congruent(gap, 0));
    lemma_congruent_sum(gap, 0, f_at_x - v, f_at_x - v);
}

/// The same for a polynomial that is committed to with its degree bounded
/// to `n`, where the commitment is `g^(alpha x^(d-n) f(x))`.
pub proof fn lemma_honest_bounded_claim(
    b: BatchView,
    w: Seq<u8>,
    commitment: Seq<u8>,
    v: nat,
    c: nat,
    point: nat,
    f_at_x: int,
    s: Secrets,
)
    requires
        s.wf(),
        congruent((s.log)(commitment), s.alpha * (s.x_d_minus_n * f_at_x)),
        congruent((s.log)(w) * (s.x - point), f_at_x - v),
    ensures
        congruent(
            exponent(
                b.opening(w, c, point).commitment_max_n(commitment, c).opening_value(v, c),
                s,
            ),
            exponent(b, s),
        ),
{
    let lw = (s.log)(w);
    let lc = (s.log)(commitment);
    let b1 = b.opening(w, c, point);
    let b2 = b1.commitment_max_n(commitment, c);
    let b3 = b2.opening_value(v, c);
    let ci = c as int;
    lemma_opening(b, w, c, point, s);
    lemma_commitment_max_n(b1, commitment, c, s);
    lemma_opening_value(b2, v, c, s);
    lemma_congruent_product(s.alpha, s.alpha, lw * (s.x - point), f_at_x - v);
    lemma_congruent_product(
        ci,
        ci,
        s.alpha * (lw * (s.x - point)),
        s.alpha * (f_at_x - v),
    );
    lemma_bounded_commitment(commitment, c, f_at_x, s);
    let e0 = exponent(b, s);
    lemma_congruent_sum(
        e0,
        e0,
        ci * (s.alpha * (lw * (s.x - point))),
        ci * (s.alpha * (f_at_x - v)),
    );
    lemma_congruent_difference(
        exponent(b1, s),
        e0 + ci * (s.alpha * (f_at_x - v)),
        (ci * lc) * s.x_n_minus_d,
        ci * (s.alpha * f_at_x),
    );
    lemma_congruent_sum(
        exponent(b2, s),
        e0 + ci * (s.alpha * (f_at_x - v)) - ci * (s.alpha * f_at_x),
        (v * c) * s.alpha,
        (v * c) * s.alpha,
    );
    assert(e0 + ci * (s.alpha * (f_at_x - v)) - ci * (s.alpha * f_at_x) + (v * c) * s.alpha == e0)
        by (nonlinear_arith)
        requires
            ci == c,
    ;
}

/// What a commitment of bounded degree takes away is what the commitment
/// of full degree to the same polynomial would.
proof fn lemma_bounded_commitment(commitment: Seq<u8>, c: nat, f_at_x: int, s: Secrets)
    requires
        s.wf(),
        congruent((s.log)(commitment), s.alpha * (s.x_d_minus_n * f_at_x)),
    ensures
        congruent((c * (s.log)(commitment)) * s.x_n_minus_d, c * (s.alpha * f_at_x)),
{
    let lc = (s.log)(commitment);
    let ci = c as int;
    lemma_congruent_product(ci, ci, lc, s.alpha * (s.x_d_minus_n * f_at_x));
    lemma_congruent_product(
        ci * lc,
        ci * (s.alpha * (s.x_d_minus_n * f_at_x)),
        s.x_n_minus_d,
        s.x_n_minus_d,
    );
    assert((ci * (s.alpha * (s.x_d_minus_n * f_at_x))) * s.x_n_minus_d == (ci * (s.alpha
        * f_at_x)) * (s.x_d_minus_n * s.x_n_minus_d)) by (nonlinear_arith);
    lemma_congruent_product(
        ci * (s.alpha * f_at_x),
        ci * (s.alpha * f_at_x),
        s.x_d_minus_n * s.x_n_minus_d,
        1,
    );
}

/// Whether a proof is what an honest prover makes of polynomials `r(X, 1)`
/// and `t(X, y)` with the values `r_at_x` and `t_at_x` at the secret point:
/// the commitments are to these polynomials, the first bounded in degree;
/// the opening at `zy` is that of `r` to the value `rzy`; and the opening at
/// `z` is that of `t + r1 r` to the value that the verifier expects there.
pub open spec fn honest_proof(
    p: ProofView,
    szy: nat,
    ky: nat,
    r_at_x: int,
    t_at_x: int,
    s: Secrets,
) -> bool {
    let c = proof_challenges(p);
    &&& s.wf()
    &&& congruent((s.log)(p.r), s.alpha * (s.x_d_minus_n * r_at_x))
    &&& congruent((s.log)(p.t), s.alpha * t_at_x)
    &&& congruent((s.log)(p.zy_opening) * (s.x - fmul(c.z, c.y)), r_at_x - p.rzy)
    &&& congruent(
        (s.log)(p.z_opening) * (s.x - c.z),
        (t_at_x + c.r1 * r_at_x) - (t_value(p, szy, ky) + c.r1 * p.rz),
    )
}

/// The claims of an honest proof leave the exponent of the batch as it was:
/// a batch that held before the proof was added holds after it.
pub proof fn lemma_honest_proof_keeps_the_exponent(
    b: BatchView,
    p: ProofView,
    szy: nat,
    ky: nat,
    r_at_x: int,
    t_at_x: int,
    s: Secrets,
)
    requires
        honest_proof(p, szy, ky, r_at_x, t_at_x, s),
    ensures
        congruent(exponent(with_proof_claims(b, p, szy, ky), s), exponent(b, s)),
{
    let c = proof_challenges(p);
    let scaled = fmul(c.second, c.r1);
    let tzy = t_value(p, szy, ky);
    let lw = (s.log)(p.z_opening);
    let lr = (s.log)(p.r);
    let lt = (s.log)(p.t);
    let second = c.second as int;
    let r1 = c.r1 as int;

    // r opens to rzy at zy
    let b1 = b.opening(p.zy_opening, c.first, fmul(c.z, c.y)).commitment_max_n(
        p.r,
        c.first,
    ).opening_value(p.rzy, c.first);
    lemma_honest_bounded_claim(
        b,
        p.zy_opening,
        p.r,
        p.rzy,
        c.first,
        fmul(c.z, c.y),
        r_at_x,
        s,
    );

    // t and r open at z together
    let b2 = b1.opening(p.z_opening, c.second, c.z);
    let b3 = b2.opening_value(tzy, c.second);
    let b4 = b3.commitment(p.t, c.second);
    let b5 = b4.opening_value(p.rz, scaled);
    let b6 = b5.commitment_max_n(p.r, scaled);
    assert(b6 == with_proof_claims(b, p, szy, ky));
    lemma_opening(b1, p.z_opening, c.second, c.z, s);
    lemma_opening_value(b2, tzy, c.second, s);
    lemma_commitment(b3, p.t, c.second, s);
    lemma_opening_value(b4, p.rz, scaled, s);
    lemma_commitment_max_n(b5, p.r, scaled, s);

    let e1 = exponent(b1, s);
    let honest_gap = (t_at_x + r1 * r_at_x) - (tzy + r1 * p.rz);
    // the opening
    lemma_congruent_product(s.alpha, s.alpha, lw * (s.x - c.z), honest_gap);
    lemma_congruent_product(second, second, s.alpha * (lw * (s.x - c.z)), s.alpha * honest_gap);
    let d1 = second * (s.alpha * honest_gap);
    lemma_congruent_sum(e1, e1, second * (s.alpha * (lw * (s.x - c.z))), d1);
    // the value of t
    let d2 = (tzy * c.second) * s.alpha;
    lemma_congruent_sum(exponent(b2, s), e1 + d1, d2, d2);
    // the commitment to t
    lemma_congruent_product(second, second, lt, s.alpha * t_at_x);
    let d3 = second * (s.alpha * t_at_x);
    lemma_congruent_difference(exponent(b3, s), e1 + d1 + d2, second * lt, d3);
    // the value of r, scaled
    lemma_fmul(c.second, c.r1);
    lemma_congruent_product(p.rz as int, p.rz as int, scaled as int, second * r1);
    lemma_congruent_product((p.rz * scaled) as int, p.rz * (second * r1), s.alpha, s.alpha);
    let d4 = (p.rz * (second * r1)) * s.alpha;
    lemma_congruent_sum(exponent(b4, s), e1 + d1 + d2 - d3, (p.rz * scaled) * s.alpha, d4);
    // the commitment to r, scaled
    lemma_bounded_commitment(p.r, scaled, r_at_x, s);
    lemma_congruent_product(
        scaled as int,
        second * r1,
        s.alpha * r_at_x,
        s.alpha * r_at_x,
    );
    let d5 = (second * r1) * (s.alpha * r_at_x);
    lemma_congruent_difference(
        exponent(b5, s),
        e1 + d1 + d2 - d3 + d4,
        (scaled * lr) * s.x_n_minus_d,
        d5,
    );
    let a = second * s.alpha;
    let rr = r1 * r_at_x;
    let rv = r1 * p.rz;
    assert(d1 == a * honest_gap) by (nonlinear_arith)
        requires
            d1 == second * (s.alpha * honest_gap),
            a == second * s.alpha,
    ;
    assert(d2 == a * tzy) by (nonlinear_arith)
        requires
            d2 == (tzy * second) * s.alpha,
            a == second * s.alpha,
    ;
    assert(d3 == a * t_at_x) by (nonlinear_arith)
        requires
            d3 == second * (s.alpha * t_at_x),
            a == second * s.alpha,
    ;
    assert(d4 == a * rv) by (nonlinear_arith)
        requires
            d4 == (p.rz * (second * r1)) * s.alpha,
            a == second * s.alpha,
            rv == r1 * p.rz,
    ;
    assert(d5 == a * rr) by (nonlinear_arith)
        requires
            d5 == (second * r1) * (s.alpha * r_at_x),
            a == second * s.alpha,
            rr == r1 * r_at_x,
    ;
    assert(a * honest_gap + a * tzy - a * t_at_x + a * rv - a * rr == a * (honest_gap + tzy
        - t_at_x + rv - rr)) by (nonlinear_arith);
    assert(honest_gap + tzy - t_at_x + rv - rr == 0);
    assert(a * (honest_gap + tzy - t_at_x + rv - rr) == 0) by (nonlinear_arith)
        requires
            honest_gap + tzy - t_at_x + rv - rr == 0,
    ;
}

/// Whether an advice is what an honest helper makes of the polynomial
/// `s(X, y)` with the value `s_at_x` at the secret point: the commitment is
/// to this polynomial, and the opening is that to the value `szy` at `z`.
pub open spec fn honest_advice(a: SxyAdviceView, z: nat, s_at_x: int, s: Secrets) -> bool {
    &&& congruent((s.log)(a.s), s.alpha * s_at_x)
    &&& congruent((s.log)(a.opening) * (s.x - z), s_at_x - a.szy)
}

/// The claim that opens an honest advice leaves the exponent of the batch
/// as it was.
pub proof fn lemma_honest_advice_keeps_the_exponent(
    b: BatchView,
    a: SxyAdviceView,
    z: nat,
    s_at_x: int,
    s: Secrets,
)
    requires
        honest_advice(a, z, s_at_x, s),
    ensures
        congruent(exponent(with_advice_claim(b, a, z), s), exponent(b, s)),
{
    lemma_honest_claim(
        b,
        a.opening,
        a.s,
        a.szy,
        crate::multiverifier::advice_challenge(a),
        z,
        s_at_x,
        s,
    );
}

/// The claims of an honest proof with an honest advice leave the exponent
/// of the batch as it was.
pub proof fn lemma_honest_proof_with_advice_keeps_the_exponent(
    v: MultiVerifierView,
    p: ProofView,
    inputs: Seq<nat>,
    a: SxyAdviceView,
    r_at_x: int,
    t_at_x: int,
    s_at_x: int,
    s: Secrets,
)
    requires
        honest_proof(
            p,
            a.szy,
            k_value(v.k_map, v.n, inputs, proof_challenges(p).y),
            r_at_x,
            t_at_x,
            s,
        ),
        honest_advice(a, proof_challenges(p).z, s_at_x, s),
    ensures
        congruent(
            exponent(after_proof_with_advice(v, p, inputs, a).batch, s),
            exponent(v.batch, s),
        ),
{
    let ky = k_value(v.k_map, v.n, inputs, proof_challenges(p).y);
    lemma_honest_proof_keeps_the_exponent(v.batch, p, a.szy, ky, r_at_x, t_at_x, s);
    lemma_honest_advice_keeps_the_exponent(
        with_proof_claims(v.batch, p, a.szy, ky),
        a,
        proof_challenges(p).z,
        s_at_x,
        s,
    );
}

/// The sum over the first `count` proofs of an aggregate of each proof's
/// challenge times the proof's value.
pub open spec fn challenge_sum(values: spec_fn(int) -> int, rest: Seq<u8>, count: nat) -> int
    decreases count,
{
    if count == 0 {
        0
    } else {
        challenge_sum(values, rest, (count - 1) as nat) + challenge_of(
            drawn(rest, (count - 1) as nat),
        ) * values(count - 1)
    }
}

/// Whether an aggregate is what an honest helper makes for proofs with
/// honest advices: `c` commits to a polynomial with the value `c_at_x` at
/// the secret point, which opens to `szw` at `w` and to each proof's value
/// at the proof's `y`; the advice of proof `j` commits to a polynomial with
/// the value `s_at_x(j)` at the secret point; and the last opening is that
/// of the advices' polynomials, combined with the proofs' challenges, to
/// the values that the advices carry, combined in the same way.
pub open spec fn honest_aggregate(
    pairs: Seq<(ProofView, SxyAdviceView)>,
    a: AggregateView,
    szw: nat,
    c_at_x: int,
    s_at_x: spec_fn(int) -> int,
    s: Secrets,
) -> bool {
    let c = aggregate_challenges(pairs, a);
    let count = shared_count(pairs, a);
    &&& congruent((s.log)(a.c), s.alpha * c_at_x)
    &&& congruent((s.log)(a.opening) * (s.x - c.w), c_at_x - szw)
    &&& forall|j: int|
        0 <= j < count ==> congruent(
            (s.log)(#[trigger] a.c_openings[j].0) * (s.x - proof_challenges(pairs[j].0).y),
            c_at_x - a.c_openings[j].1,
        )
    &&& forall|j: int|
        0 <= j < count ==> congruent((s.log)(#[trigger] pairs[j].1.s), s.alpha * s_at_x(j))
    &&& congruent(
        (s.log)(a.s_opening) * (s.x - c.z),
        challenge_sum(s_at_x, c.rest, count) - challenge_sum(
            |j: int| pairs[j].1.szy as int,
            c.rest,
            count,
        ),
    )
}

proof fn lemma_honest_c_openings(
    b: BatchView,
    pairs: Seq<(ProofView, SxyAdviceView)>,
    a: AggregateView,
    random: nat,
    count: nat,
    c_at_x: int,
    s: Secrets,
)
    requires
        count <= shared_count(pairs, a),
        congruent((s.log)(a.c), s.alpha * c_at_x),
        forall|j: int|
            0 <= j < count ==> congruent(
                (s.log)(#[trigger] a.c_openings[j].0) * (s.x - proof_challenges(pairs[j].0).y),
                c_at_x - a.c_openings[j].1,
            ),
    ensures
        congruent(exponent(with_c_openings(b, pairs, a, random, count), s), exponent(b, s)),
    decreases count,
{
    if count > 0 {
        let j = (count - 1) as int;
        lemma_honest_c_openings(b, pairs, a, random, j as nat, c_at_x, s);
        let w = a.c_openings[j].0;
        assert(congruent(
            (s.log)(w) * (s.x - proof_challenges(pairs[j].0).y),
            c_at_x - a.c_openings[j].1,
        ));
        lemma_honest_claim(
            with_c_openings(b, pairs, a, random, j as nat),
            w,
            a.c,
            a.c_openings[j].1,
            random,
            proof_challenges(pairs[j].0).y,
            c_at_x,
            s,
        );
    }
}

proof fn lemma_honest_advice_commitments(
    b: BatchView,
    pairs: Seq<(ProofView, SxyAdviceView)>,
    rest: Seq<u8>,
    random: nat,
    count: nat,
    s_at_x: spec_fn(int) -> int,
    s: Secrets,
)
    requires
        count <= pairs.len(),
        forall|j: int|
            0 <= j < count ==> congruent((s.log)(#[trigger] pairs[j].1.s), s.alpha * s_at_x(j)),
    ensures
        congruent(
            exponent(with_advice_commitments(b, pairs, rest, random, count), s),
            exponent(b, s) - random * (s.alpha * challenge_sum(s_at_x, rest, count)),
        ),
    decreases count,
{
    if count > 0 {
        let j = (count - 1) as int;
        lemma_honest_advice_commitments(b, pairs, rest, random, j as nat, s_at_x, s);
        let before = with_advice_commitments(b, pairs, rest, random, j as nat);
        let r = challenge_of(drawn(rest, j as nat));
        let scaled = fmul(r, random);
        let commitment = pairs[j].1.s;
        let lc = (s.log)(commitment);
        assert(congruent(lc, s.alpha * s_at_x(j)));
        lemma_commitment(before, commitment, scaled, s);
        lemma_fmul(r, random);
        lemma_congruent_product(scaled as int, (r * random) as int, lc, s.alpha * s_at_x(j));
        let earlier = challenge_sum(s_at_x, rest, j as nat);
        lemma_congruent_difference(
            exponent(before, s),
            exponent(b, s) - random * (s.alpha * earlier),
            scaled * lc,
            (r * random) * (s.alpha * s_at_x(j)),
        );
        assert(random * (s.alpha * earlier) + (r * random) * (s.alpha * s_at_x(j)) == random * (
        s.alpha * (earlier + r * s_at_x(j)))) by (nonlinear_arith);
    } else {
        assert(random * (s.alpha * 0) == 0) by (nonlinear_arith);
    }
}

proof fn lemma_expected_value(pairs: Seq<(ProofView, SxyAdviceView)>, rest: Seq<u8>, count: nat)
    requires
        count <= pairs.len(),
    ensures
        congruent(
            expected_value(pairs, rest, count) as int,
            challenge_sum(|j: int| pairs[j].1.szy as int, rest, count),
        ),
    decreases count,
{
    if count > 0 {
        let j = (count - 1) as int;
        let values = |j: int| pairs[j].1.szy as int;
        lemma_expected_value(pairs, rest, j as nat);
        let r = challenge_of(drawn(rest, j as nat));
        let v = pairs[j].1.szy;
        let earlier = expected_value(pairs, rest, j as nat);
        lemma_fadd(earlier, fmul(v, r));
        lemma_fmul(v, r);
        assert(v * r == r * values(j)) by (nonlinear_arith)
            requires
                values(j) == v,
        ;
        lemma_congruent_sum(
            earlier as int,
            challenge_sum(values, rest, j as nat),
            fmul(v, r) as int,
            r * values(j),
        );
    }
}

/// The claims of an honest aggregate leave the exponent of the batch as it
/// was.
pub proof fn lemma_honest_aggregate_keeps_the_exponent(
    b: BatchView,
    pairs: Seq<(ProofView, SxyAdviceView)>,
    a: AggregateView,
    szw: nat,
    c_at_x: int,
    s_at_x: spec_fn(int) -> int,
    s: Secrets,
)
    requires
        honest_aggregate(pairs, a, szw, c_at_x, s_at_x, s),
    ensures
        congruent(exponent(with_aggregate_claims(b, pairs, a, szw), s), exponent(b, s)),
{
    let c = aggregate_challenges(pairs, a);
    let count = shared_count(pairs, a);
    let random = c.random as int;
    let values = |j: int| pairs[j].1.szy as int;
    let b1 = b.opening(a.opening, c.random, c.w).commitment(a.c, c.random).opening_value(
        szw,
        c.random,
    );
    let b2 = with_c_openings(b1, pairs, a, c.random, count);
    let b3 = with_advice_commitments(b2, pairs, c.rest, c.random, count);
    let expected = expected_value(pairs, c.rest, count);
    let b4 = b3.opening_value(expected, c.random);
    let b5 = b4.opening(a.s_opening, c.random, c.z);
    assert(b5 == with_aggregate_claims(b, pairs, a, szw));
    lemma_honest_claim(b, a.opening, a.c, szw, c.random, c.w, c_at_x, s);
    lemma_honest_c_openings(b1, pairs, a, c.random, count, c_at_x, s);
    lemma_honest_advice_commitments(b2, pairs, c.rest, c.random, count, s_at_x, s);
    lemma_expected_value(pairs, c.rest, count);
    lemma_opening_value(b3, expected, c.random, s);
    lemma_opening(b4, a.s_opening, c.random, c.z, s);

    let e0 = exponent(b, s);
    let committed = challenge_sum(s_at_x, c.rest, count);
    let claimed = challenge_sum(values, c.rest, count);
    let lw = (s.log)(a.s_opening);
    // the advice commitments
    let d1 = random * (s.alpha * committed);
    lemma_congruent_difference(exponent(b2, s), e0, d1, d1);
    // the expected value
    lemma_congruent_product(expected as int, claimed, random, random);
    lemma_congruent_product((expected * c.random) as int, claimed * random, s.alpha, s.alpha);
    let d2 = (claimed * random) * s.alpha;
    lemma_congruent_sum(exponent(b3, s), e0 - d1, (expected * c.random) * s.alpha, d2);
    // the opening of the combined advices
    lemma_congruent_product(s.alpha, s.alpha, lw * (s.x - c.z), committed - claimed);
    lemma_congruent_product(
        random,
        random,
        s.alpha * (lw * (s.x - c.z)),
        s.alpha * (committed - claimed),
    );
    let d3 = random * (s.alpha * (committed - claimed));
    lemma_congruent_sum(
        exponent(b4, s),
        e0 - d1 + d2,
        random * (s.alpha * (lw * (s.x - c.z))),
        d3,
    );
    let ra = random * s.alpha;
    assert(d1 == ra * committed) by (nonlinear_arith)
        requires
            d1 == random * (s.alpha * committed),
            ra == random * s.alpha,
    ;
    assert(d2 == ra * claimed) by (nonlinear_arith)
        requires
            d2 == (claimed * random) * s.alpha,
            ra == random * s.alpha,
    ;
    assert(d3 == ra * committed - ra * claimed) by (nonlinear_arith)
        requires
            d3 == random * (s.alpha * (committed - claimed)),
            ra == random * s.alpha,
    ;
}

/// Whether the pairing check of a batch is the vanishing of its exponent.
/// This is what the bilinearity of the pairing gives where the points of
/// the batch are the powers of `g` that the secrets name; it is a
/// hypothesis of the laws below, and nothing here proves it of the curve.
pub open spec fn pairing_reflects(b: BatchView, s: Secrets) -> bool {
    b.verdict() <==> congruent(exponent(b, s), 0)
}

/// A batch without claims has the exponent zero.
pub proof fn lemma_empty_batch_has_no_exponent(srs: SrsView, n: nat, s: Secrets)
    ensures
        exponent(BatchView::empty(srs, n), s) == 0,
{
    let b = BatchView::empty(srs, n);
    assert(weight(b.alpha_x, s.log) == 0);
    assert(weight(b.alpha, s.log) == 0);
    assert(weight(b.neg_h, s.log) == 0);
    assert(weight(b.neg_x_n_minus_d, s.log) == 0);
    assert(0 * (s.alpha * s.x) + (0 + 0) * s.alpha - 0 - 0 * s.x_n_minus_d == 0)
        by (nonlinear_arith);
}

/// Completeness, over the exponents: an honest proof, added to a verifier
/// whose batch holds so far, is accepted, where the pairing check of the
/// batch is the vanishing of its exponent. A verifier that has just been
/// made is such a verifier.
pub proof fn lemma_honest_proof_is_accepted(
    v: MultiVerifierView,
    p: ProofView,
    inputs: Seq<nat>,
    sxy: Option<nat>,
    r_at_x: int,
    t_at_x: int,
    s: Secrets,
)
    requires
        congruent(exponent(v.batch, s), 0),
        honest_proof(
            p,
            match sxy {
                Some(value) => value,
                None => s_value(v.circuit, v.n, proof_challenges(p).z, proof_challenges(p).y),
            },
            k_value(v.k_map, v.n, inputs, proof_challenges(p).y),
            r_at_x,
            t_at_x,
            s,
        ),
        pairing_reflects(after_proof(v, p, inputs, sxy).batch, s),
    ensures
        after_proof(v, p, inputs, sxy).batch.verdict(),
{
    let szy = match sxy {
        Some(value) => value,
        None => s_value(v.circuit, v.n, proof_challenges(p).z, proof_challenges(p).y),
    };
    let ky = k_value(v.k_map, v.n, inputs, proof_challenges(p).y);
    lemma_honest_proof_keeps_the_exponent(v.batch, p, szy, ky, r_at_x, t_at_x, s);
}

/// Advice equivalence, over the exponents: with an honest advice that
/// carries the value of `s` that the circuit has at the proof's point, a
/// proof added with the advice and the same proof added without it get the
/// same verdict, where the pairing check of either batch is the vanishing
/// of its exponent.
pub proof fn lemma_advice_gives_the_same_verdict(
    v: MultiVerifierView,
    p: ProofView,
    inputs: Seq<nat>,
    a: SxyAdviceView,
    s_at_x: int,
    s: Secrets,
)
    requires
        a.szy == s_value(v.circuit, v.n, proof_challenges(p).z, proof_challenges(p).y),
        honest_advice(a, proof_challenges(p).z, s_at_x, s),
        pairing_reflects(after_proof_with_advice(v, p, inputs, a).batch, s),
        pairing_reflects(after_proof(v, p, inputs, None).batch, s),
    ensures
        after_proof_with_advice(v, p, inputs, a).batch.verdict() == after_proof(
            v,
            p,
            inputs,
            None,
        ).batch.verdict(),
{
    let without = after_proof(v, p, inputs, None).batch;
    lemma_advice_adds_one_claim(v, p, inputs, a);
    lemma_honest_advice_keeps_the_exponent(without, a, proof_challenges(p).z, s_at_x, s);
}

/// Aggregation, over the exponents: an honest aggregate, added to a
/// verifier whose batch holds so far, is accepted, where the pairing check
/// of the batch is the vanishing of its exponent.
pub proof fn lemma_honest_aggregate_is_accepted(
    v: MultiVerifierView,
    pairs: Seq<(ProofView, SxyAdviceView)>,
    a: AggregateView,
    c_at_x: int,
    s_at_x: spec_fn(int) -> int,
    s: Secrets,
)
    requires
        congruent(exponent(v.batch, s), 0),
        honest_aggregate(
            pairs,
            a,
            s_value(
                v.circuit,
                v.n,
                aggregate_challenges(pairs, a).z,
                aggregate_challenges(pairs, a).w,
            ),
            c_at_x,
            s_at_x,
            s,
        ),
        pairing_reflects(after_aggregate(v, pairs, a).batch, s),
    ensures
        after_aggregate(v, pairs, a).batch.verdict(),
{
    let c = aggregate_challenges(pairs, a);
    lemma_honest_aggregate_keeps_the_exponent(
        v.batch,
        pairs,
        a,
        s_value(v.circuit, v.n, c.z, c.w),
        c_at_x,
        s_at_x,
        s,
    );
}

} // verus!
