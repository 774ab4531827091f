//! The verifier that gathers the checks of many proofs into one.
//!
//! A [`MultiVerifier`] is made for one circuit and one reference string.
//! Each proof added to it becomes a handful of claims in its batch, with
//! challenges that a fresh transcript derives from the proof; one pairing
//! check at the end gives the verdict on all of them.

use crate::batch::Batch;
use crate::batch::BatchView;
use crate::circuit::constraint_count;
use crate::circuit::gate_count;
use crate::circuit::k_powers;
use crate::circuit::record;
use crate::circuit::well_formed;
use crate::circuit::Circuit;
use crate::circuit::EventView;
use crate::circuit::Outcome;
use crate::circuit::SynthesisError;
use crate::circuit::Synthesize;
use crate::field::fadd;
use crate::field::fmul;
use crate::field::fpow;
use crate::field::fsub;
use crate::field::scalars_view;
use crate::field::Scalar;
use crate::poly::evaluate_s;
use crate::poly::s_value;
use crate::protocol::pairs_view;
use crate::protocol::Aggregate;
use crate::protocol::AggregateView;
use crate::protocol::Proof;
use crate::protocol::ProofView;
use crate::protocol::SxyAdvice;
use crate::protocol::SxyAdviceView;
use crate::srs::Srs;
use crate::srs::SrsView;
use crate::transcript::after_challenge;
use crate::transcript::challenge_of;
use crate::transcript::with_point;
use crate::transcript::with_scalar;
use crate::transcript::Transcript;
use vstd::array::array_as_slice;
use vstd::prelude::*;

verus! {

/// Why a proof could not be added.
#[derive(Clone, Copy, Debug, PartialEq, Eq)]
pub enum VerifierError {
    /// `s` has to be evaluated and cannot be: a challenge of the point is
    /// zero, where the evaluation is not defined, or a linear constraint of
    /// the circuit names a wire of a gate that the circuit does not have.
    InternalConsistency,
}

/// What a verifier holds, as plain values.
pub struct MultiVerifierView {
    /// The events of the circuit.
    pub circuit: Seq<EventView>,
    /// The claims gathered so far.
    pub batch: BatchView,
    /// The power of each public input in `k(Y)`, the constant one first,
    /// before the offset `n`.
    pub k_map: Seq<usize>,
    /// The number of multiplication gates.
    pub n: nat,
    /// The number of linear constraints.
    pub q: nat,
}

impl MultiVerifierView {
    /// Whether the powers and the counts are those of the circuit. It is so
    /// for the view of every verifier: construction makes it so, and nothing
    /// changes it afterwards.
    pub open spec fn wf(self) -> bool {
        &&& self.k_map == k_powers(self.circuit)
        &&& self.n == gate_count(self.circuit)
        &&& self.q == constraint_count(self.circuit)
    }
}

/// The verifier that construction gives for the events of a circuit and a
/// reference string: none where the string is too short for the circuit's
/// gates; else, whatever the events are, one with an empty batch and with
/// what one pass over the events counts.
pub open spec fn constructed(circuit: Seq<EventView>, srs: SrsView) -> Result<
    MultiVerifierView,
    SynthesisError,
> {
    if !srs.supports(gate_count(circuit)) {
        Err(SynthesisError::PolynomialDegreeTooLarge)
    } else {
        Ok(
            MultiVerifierView {
                circuit,
                batch: BatchView::empty(srs, gate_count(circuit)),
                k_map: k_powers(circuit),
                n: gate_count(circuit),
                q: constraint_count(circuit),
            },
        )
    }
}

/// The verifier that construction gives for a circuit whose synthesis comes
/// to the given outcome: none where the synthesis fails, with the circuit's
/// error, and else the one for the circuit's events.
pub open spec fn synthesized(outcome: Outcome, srs: SrsView) -> Result<
    MultiVerifierView,
    SynthesisError,
> {
    match outcome {
        Err(e) => Err(e),
        Ok(events) => constructed(events@, srs),
    }
}

/// Construction is deterministic: two verifiers made for circuits with the
/// same events hold the same powers of the public inputs and the same
/// counts, whatever the reference strings, and over the same string also the
/// same batch.
pub proof fn lemma_construction_is_deterministic(
    circuit: Seq<EventView>,
    srs1: SrsView,
    srs2: SrsView,
    first: MultiVerifierView,
    second: MultiVerifierView,
)
    requires
        constructed(circuit, srs1) == Ok::<MultiVerifierView, SynthesisError>(first),
        constructed(circuit, srs2) == Ok::<MultiVerifierView, SynthesisError>(second),
    ensures
        first.k_map == second.k_map,
        first.n == second.n,
        first.q == second.q,
        srs1 == srs2 ==> first == second,
{
}

/// Two verifiers that are made from one circuit hold the same powers of the
/// public inputs and the same counts, whatever the reference strings, and
/// over the same string also the same batch: the circuit's synthesis comes
/// to the same events each time.
pub proof fn lemma_new_is_deterministic<C: Synthesize>(
    circuit: &C,
    srs1: SrsView,
    srs2: SrsView,
    first: MultiVerifierView,
    second: MultiVerifierView,
)
    requires
        synthesized(circuit.outcome(), srs1) == Ok::<MultiVerifierView, SynthesisError>(first),
        synthesized(circuit.outcome(), srs2) == Ok::<MultiVerifierView, SynthesisError>(second),
    ensures
        first.k_map == second.k_map,
        first.n == second.n,
        first.q == second.q,
        srs1 == srs2 ==> first == second,
{
}

/// The challenges that a proof gives.
pub struct ProofChallenges {
    /// The value of `Y`, drawn after the commitment to `r`.
    pub y: nat,
    /// The value of `X`, drawn after the commitment to `t`.
    pub z: nat,
    /// What keeps the two polynomials opened at `z` apart, drawn after the
    /// two claimed values.
    pub r1: nat,
    /// The coefficient of the claim at `zy`, drawn after the two openings.
    pub first: nat,
    /// The coefficient of the claims at `z`, drawn after the first.
    pub second: nat,
}

/// The challenges that a fresh transcript derives from a proof.
pub open spec fn proof_challenges(p: ProofView) -> ProofChallenges {
    let t1 = with_point(Seq::empty(), p.r);
    let t2 = with_point(after_challenge(t1), p.t);
    let t3 = with_scalar(with_scalar(after_challenge(t2), p.rz), p.rzy);
    let t4 = with_point(with_point(after_challenge(t3), p.z_opening), p.zy_opening);
    ProofChallenges {
        y: challenge_of(t1),
        z: challenge_of(t2),
        r1: challenge_of(t3),
        first: challenge_of(t4),
        second: challenge_of(after_challenge(t4)),
    }
}

/// The sum of the first `count` terms of `k(y)`: the term `i` is
/// `y^(k_map[i] + n)` times the `i`-th wire.
pub open spec fn k_sum(k_map: Seq<usize>, n: nat, wires: Seq<nat>, y: nat, count: nat) -> nat
    decreases count,
{
    if count == 0 {
        0
    } else {
        fadd(
            k_sum(k_map, n, wires, y, (count - 1) as nat),
            fmul(fpow(y, k_map[count - 1] as nat + n), wires[count - 1]),
        )
    }
}

/// The number of terms of `k(y)`: one for each power that has an input,
/// where the constant one counts as the first input.
pub open spec fn k_terms(k_map: Seq<usize>, inputs: Seq<nat>) -> nat {
    if k_map.len() <= inputs.len() + 1 {
        k_map.len()
    } else {
        inputs.len() + 1
    }
}

/// `k(y)`, what the public inputs give to the constraint polynomial: the
/// constant one and the inputs, each times its power of `y`.
pub open spec fn k_value(k_map: Seq<usize>, n: nat, inputs: Seq<nat>, y: nat) -> nat {
    k_sum(k_map, n, seq![1nat] + inputs, y, k_terms(k_map, inputs))
}

/// `t(z, y)`, from the two claimed values of `r`, from `s(z, y)` and from
/// `k(y)`.
pub open spec fn t_value(p: ProofView, szy: nat, ky: nat) -> nat {
    fsub(fmul(fadd(p.rzy, szy), p.rz), ky)
}

/// The batch with the claims of a proof: that `r`, bounded in degree, has
/// the value `rzy` at `zy`; and, with one opening at `z`, that `t` has the
/// value `t(z, y)` and `r` the value `rz`, the second scaled by `r1`.
pub open spec fn with_proof_claims(b: BatchView, p: ProofView, szy: nat, ky: nat) -> BatchView {
    let c = proof_challenges(p);
    let scaled = fmul(c.second, c.r1);
    b.opening(p.zy_opening, c.first, fmul(c.z, c.y)).commitment_max_n(p.r, c.first).opening_value(
        p.rzy,
        c.first,
    ).opening(p.z_opening, c.second, c.z).opening_value(t_value(p, szy, ky), c.second).commitment(
        p.t,
        c.second,
    ).opening_value(p.rz, scaled).commitment_max_n(p.r, scaled)
}

/// Whether `s` can be had at a proof's point: it is given, or it can be
/// evaluated, which takes a circuit whose constraints name only wires of
/// its own gates and a point of which neither challenge is zero.
pub open spec fn s_available(v: MultiVerifierView, p: ProofView, sxy: Option<nat>) -> bool {
    sxy is Some || (well_formed(v.circuit) && proof_challenges(p).y != 0 && proof_challenges(
        p,
    ).z != 0)
}

/// The verifier after a proof has been added: the claims of the proof are
/// in the batch, with `s(z, y)` as given or else as the circuit has it.
pub open spec fn after_proof(
    v: MultiVerifierView,
    p: ProofView,
    inputs: Seq<nat>,
    sxy: Option<nat>,
) -> MultiVerifierView {
    let c = proof_challenges(p);
    let szy = match sxy {
        Some(s) => s,
        None => s_value(v.circuit, v.n, c.z, c.y),
    };
    MultiVerifierView {
        batch: with_proof_claims(v.batch, p, szy, k_value(v.k_map, v.n, inputs, c.y)),
        ..v
    }
}

/// The coefficient of the claim that opens an advice, which a fresh
/// transcript derives from the advice.
pub open spec fn advice_challenge(a: SxyAdviceView) -> nat {
    challenge_of(with_scalar(with_point(with_point(Seq::empty(), a.opening), a.s), a.szy))
}

/// The batch with the claim that the commitment of an advice has the
/// advice's value at `z`.
pub open spec fn with_advice_claim(b: BatchView, a: SxyAdviceView, z: nat) -> BatchView {
    let random = advice_challenge(a);
    b.opening(a.opening, random, z).commitment(a.s, random).opening_value(a.szy, random)
}

/// The verifier after a proof has been added with an advice: the claims of
/// the proof with the advice's value for `s(z, y)`, then the claim that
/// opens the advice at the proof's `z`.
pub open spec fn after_proof_with_advice(
    v: MultiVerifierView,
    p: ProofView,
    inputs: Seq<nat>,
    a: SxyAdviceView,
) -> MultiVerifierView {
    let with_proof = after_proof(v, p, inputs, Some(a.szy));
    MultiVerifierView {
        batch: with_advice_claim(with_proof.batch, a, proof_challenges(p).z),
        ..with_proof
    }
}

/// Where an advice carries the value of `s` that the circuit has at the
/// proof's point, adding the proof with the advice leaves the claims that
/// adding it without leaves, followed by the one claim that opens the
/// advice. The two verdicts can then differ only by that claim.
pub proof fn lemma_advice_adds_one_claim(
    v: MultiVerifierView,
    p: ProofView,
    inputs: Seq<nat>,
    a: SxyAdviceView,
)
    requires
        a.szy == s_value(v.circuit, v.n, proof_challenges(p).z, proof_challenges(p).y),
    ensures
        after_proof_with_advice(v, p, inputs, a).batch == with_advice_claim(
            after_proof(v, p, inputs, None).batch,
            a,
            proof_challenges(p).z,
        ),
{
}

/// The transcript of an aggregate after the advice commitments of the first
/// `count` proofs.
pub open spec fn advice_transcript(pairs: Seq<(ProofView, SxyAdviceView)>, count: nat) -> Seq<u8>
    decreases count,
{
    if count == 0 {
        Seq::empty()
    } else {
        with_point(advice_transcript(pairs, (count - 1) as nat), pairs[count - 1].1.s)
    }
}

/// A transcript after `count` challenges have been drawn from it.
pub open spec fn drawn(t: Seq<u8>, count: nat) -> Seq<u8>
    decreases count,
{
    if count == 0 {
        t
    } else {
        after_challenge(drawn(t, (count - 1) as nat))
    }
}

/// The challenges that an aggregate shares.
pub struct AggregateChallenges {
    /// The value of `X`, drawn after the advice commitments of all proofs.
    pub z: nat,
    /// The point at which the shared commitment is opened, drawn after that
    /// commitment.
    pub w: nat,
    /// The coefficient of the claims. It is drawn from a copy of the
    /// transcript each time, so it is one value for all of them, and it is
    /// also the first of the challenges of the proofs.
    pub random: nat,
    /// The transcript from which the challenges of the proofs are drawn.
    pub rest: Seq<u8>,
}

/// The challenges that the running transcript of an aggregate gives.
pub open spec fn aggregate_challenges(
    pairs: Seq<(ProofView, SxyAdviceView)>,
    a: AggregateView,
) -> AggregateChallenges {
    let t0 = advice_transcript(pairs, pairs.len());
    let t1 = with_point(after_challenge(t0), a.c);
    let t2 = after_challenge(t1);
    AggregateChallenges { z: challenge_of(t0), w: challenge_of(t1), random: challenge_of(t2), rest: t2 }
}

/// The coefficient that the claims of an aggregate share is no draw of its
/// own: the transcript from which it is taken is the one that gives the
/// first proof its challenge, so the two are the same field element.
pub proof fn lemma_shared_coefficient_is_first_challenge(
    pairs: Seq<(ProofView, SxyAdviceView)>,
    a: AggregateView,
)
    ensures
        aggregate_challenges(pairs, a).random == challenge_of(
            drawn(aggregate_challenges(pairs, a).rest, 0),
        ),
{
}

/// The number of proofs of an aggregate that have an opening.
pub open spec fn shared_count(pairs: Seq<(ProofView, SxyAdviceView)>, a: AggregateView) -> nat {
    if pairs.len() <= a.c_openings.len() {
        pairs.len()
    } else {
        a.c_openings.len()
    }
}

/// The batch with the claims that the shared commitment has, at the `y` of
/// each of the first `count` proofs, the value that goes with the proof.
pub open spec fn with_c_openings(
    b: BatchView,
    pairs: Seq<(ProofView, SxyAdviceView)>,
    a: AggregateView,
    random: nat,
    count: nat,
) -> BatchView
    decreases count,
{
    if count == 0 {
        b
    } else {
        let j = count - 1;
        with_c_openings(b, pairs, a, random, j as nat).opening(
            a.c_openings[j].0,
            random,
            proof_challenges(pairs[j].0).y,
        ).commitment(a.c, random).opening_value(a.c_openings[j].1, random)
    }
}

/// The value that the combined advice commitments of the first `count`
/// proofs must open to: the value that the advice of each proof carries,
/// times the proof's challenge.
pub open spec fn expected_value(
    pairs: Seq<(ProofView, SxyAdviceView)>,
    rest: Seq<u8>,
    count: nat,
) -> nat
    decreases count,
{
    if count == 0 {
        0
    } else {
        fadd(
            expected_value(pairs, rest, (count - 1) as nat),
            fmul(pairs[count - 1].1.szy, challenge_of(drawn(rest, (count - 1) as nat))),
        )
    }
}

/// The batch with the advice commitments of the first `count` proofs, each
/// scaled by the proof's challenge and by the shared coefficient.
pub open spec fn with_advice_commitments(
    b: BatchView,
    pairs: Seq<(ProofView, SxyAdviceView)>,
    rest: Seq<u8>,
    random: nat,
    count: nat,
) -> BatchView
    decreases count,
{
    if count == 0 {
        b
    } else {
        with_advice_commitments(b, pairs, rest, random, (count - 1) as nat).commitment(
            pairs[count - 1].1.s,
            fmul(challenge_of(drawn(rest, (count - 1) as nat)), random),
        )
    }
}

/// The batch with the claims of an aggregate: that the shared commitment
/// has the value `szw` at `w`; that it has each proof's value at the proof's
/// `y`; and that the advice commitments, combined with the proofs'
/// challenges, open at `z` to the values that the advices carry, combined
/// in the same way.
pub open spec fn with_aggregate_claims(
    b: BatchView,
    pairs: Seq<(ProofView, SxyAdviceView)>,
    a: AggregateView,
    szw: nat,
) -> BatchView {
    let c = aggregate_challenges(pairs, a);
    let count = shared_count(pairs, a);
    let b1 = b.opening(a.opening, c.random, c.w).commitment(a.c, c.random).opening_value(
        szw,
        c.random,
    );
    let b2 = with_c_openings(b1, pairs, a, c.random, count);
    let b3 = with_advice_commitments(b2, pairs, c.rest, c.random, count);
    b3.opening_value(expected_value(pairs, c.rest, count), c.random).opening(
        a.s_opening,
        c.random,
        c.z,
    )
}

/// Whether `s` can be evaluated for an aggregate: the constraints of the
/// circuit name only wires of its own gates, and neither `z` nor `w` is
/// zero.
pub open spec fn aggregate_available(
    v: MultiVerifierView,
    pairs: Seq<(ProofView, SxyAdviceView)>,
    a: AggregateView,
) -> bool {
    well_formed(v.circuit) && aggregate_challenges(pairs, a).z != 0 && aggregate_challenges(
        pairs,
        a,
    ).w != 0
}

/// The verifier after an aggregate has been added, with `s(z, w)` as the
/// circuit has it.
pub open spec fn after_aggregate(
    v: MultiVerifierView,
    pairs: Seq<(ProofView, SxyAdviceView)>,
    a: AggregateView,
) -> MultiVerifierView {
    let c = aggregate_challenges(pairs, a);
    MultiVerifierView {
        batch: with_aggregate_claims(v.batch, pairs, a, s_value(v.circuit, v.n, c.z, c.w)),
        ..v
    }
}

/// A circuit with what one pass over it has found. Nothing changes it once
/// it is made.
#[derive(Debug)]
struct Checked {
    circuit: Circuit,
    k_map: Vec<usize>,
    n: usize,
    q: usize,
}

impl Checked {
    #[verifier::type_invariant]
    spec fn preprocessed(self) -> bool {
        &&& self.k_map@ == k_powers(self.circuit@)
        &&& self.n == gate_count(self.circuit@)
        &&& self.q == constraint_count(self.circuit@)
    }
}

/// The batched verifier of the proofs for one circuit.
#[derive(Debug)]
pub struct MultiVerifier {
    checked: Checked,
    batch: Batch,
}

impl View for MultiVerifier {
    type V = MultiVerifierView;

    closed spec fn view(&self) -> MultiVerifierView {
        MultiVerifierView {
            circuit: self.checked.circuit@,
            batch: self.batch@,
            k_map: self.checked.k_map@,
            n: self.checked.n as nat,
            q: self.checked.q as nat,
        }
    }
}

impl MultiVerifier {
    /// The verifier for a circuit over a reference string, with an empty
    /// batch. The circuit is synthesized once: where that fails, there is no
    /// verifier, and the error is the circuit's; else the verifier is the
    /// one for the circuit's events.
    pub fn new<C: Synthesize>(circuit: C, srs: &Srs) -> (r: Result<Self, SynthesisError>)
        ensures
            match (synthesized(circuit.outcome(), srs@), r) {
                (Ok(view), Ok(v)) => v@ == view && v@.wf(),
                (Err(expected), Err(e)) => e == expected,
                _ => false,
            },
    {
        match record(&circuit) {
            Ok(events) => Self::with_events(events, srs),
            Err(e) => Err(e),
        }
    }

    /// The verifier for the circuit with the given events over a reference
    /// string, with an empty batch.
    pub fn with_events(circuit: Circuit, srs: &Srs) -> (r: Result<Self, SynthesisError>)
        ensures
            match (r, constructed(circuit@, srs@)) {
                (Ok(v), Ok(view)) => v@ == view && v@.wf(),
                (Err(e), Err(expected)) => e == expected,
                _ => false,
            },
    {
        let found = circuit.preprocess();
        let batch = match Batch::new(srs, found.n) {
            Some(batch) => batch,
            None => {
                return Err(SynthesisError::PolynomialDegreeTooLarge);
            },
        };
        let checked = Checked { circuit, k_map: found.k_map, n: found.n, q: found.q };
        Ok(MultiVerifier { checked, batch })
    }

    /// The challenges `y` and `z` of a proof, in this order.
    pub fn challenges(proof: &Proof) -> (r: (Scalar, Scalar))
        ensures
            r.0@ == proof_challenges(proof@).y,
            r.1@ == proof_challenges(proof@).z,
    {
        let mut transcript = fresh_transcript();
        transcript.commit_point(&proof.r);
        let y = transcript.get_challenge_scalar();
        transcript.commit_point(&proof.t);
        let z = transcript.get_challenge_scalar();
        (y, z)
    }

    /// `k(y)` for the given public inputs.
    pub fn k_at(&self, inputs: &[Scalar], y: &Scalar) -> (r: Scalar)
        ensures
            r@ == k_value(self@.k_map, self@.n, scalars_view(inputs@), y@),
    {
        let ghost wires = seq![1nat] + scalars_view(inputs@);
        let k_map = &self.checked.k_map;
        let n = self.checked.n;
        let count = if k_map.len() <= inputs.len() {
            k_map.len()
        } else {
            inputs.len() + 1
        };
        let mut ky = Scalar::zero();
        let mut i: usize = 0;
        while i < count
            invariant
                i <= count,
                count <= k_map.len(),
                count <= inputs.len() + 1,
                wires == seq![1nat] + scalars_view(inputs@),
                ky@ == k_sum(k_map@, n as nat, wires, y@, i as nat),
            decreases count - i,
        {
            let exp: u128 = k_map[i] as u128 + n as u128;
            let term = if i == 0 {
                y.pow(exp).mul(&Scalar::one())
            } else {
                y.pow(exp).mul(&inputs[i - 1])
            };
            ky = ky.add(&term);
            i += 1;
        }
        ky
    }

    /// Adds a proof for the given public inputs. `sxy` is the value of
    /// `s(z, y)` where the caller has it; without it the circuit is
    /// evaluated, which fails where `y` or `z` is zero or a constraint of
    /// the circuit names a wire of a gate that the circuit does not have. A
    /// failure leaves the verifier as it was.
    pub fn add_proof(&mut self, proof: &Proof, inputs: &[Scalar], sxy: Option<Scalar>) -> (r:
        Result<(), VerifierError>)
        ensures
            final(self)@.wf(),
            r is Ok <==> s_available(old(self)@, proof@, option_view(sxy)),
            r is Ok ==> final(self)@ == after_proof(
                old(self)@,
                proof@,
                scalars_view(inputs@),
                option_view(sxy),
            ),
            r is Err ==> r == Err::<(), VerifierError>(VerifierError::InternalConsistency)
                && final(self)@ == old(self)@,
    {
        match self.push_proof(proof, inputs, sxy) {
            Ok(_) => Ok(()),
            Err(e) => Err(e),
        }
    }

    /// Adds a proof with the advice that carries `s(z, y)`, and the claim
    /// that opens the advice at `z`, so that the advice is checked too. The
    /// advice is for the proof's own point `(z, y)`. The circuit is not
    /// evaluated, so this works for every circuit.
    pub fn add_proof_with_advice(&mut self, proof: &Proof, inputs: &[Scalar], advice: &SxyAdvice)
        ensures
            final(self)@.wf(),
            final(self)@ == after_proof_with_advice(
                old(self)@,
                proof@,
                scalars_view(inputs@),
                advice@,
            ),
    {
        let z = match self.push_proof(proof, inputs, Some(advice.szy)) {
            Ok(z) => z,
            Err(_) => {
                return ;
            },
        };
        let mut transcript = fresh_transcript();
        transcript.commit_point(&advice.opening);
        transcript.commit_point(&advice.s);
        transcript.commit_scalar(&advice.szy);
        let random = transcript.get_challenge_scalar();
        self.batch.add_opening(advice.opening, random, z);
        self.batch.add_commitment(advice.s, random);
        self.batch.add_opening_value(advice.szy, random);
    }

    /// Adds the proofs that share the commitment of an aggregate. A proof
    /// without an opening in the aggregate, or an opening without a proof,
    /// is left out. The evaluation of `s` fails where `z` or `w` is zero or
    /// a constraint of the circuit names a wire of a gate that the circuit
    /// does not have; a failure leaves the verifier as it was.
    ///
    /// The advice of each proof has to carry the value of `s` at the point
    /// `z` that the aggregate shares, `s(z, y)` with the proof's own `y`:
    /// these values, combined with the proofs' challenges, are what the
    /// combined advice commitments are claimed to open to at `z`. That `z`
    /// is drawn after the advice commitments of all proofs and is not the
    /// `z` of any proof, so an advice that `add_proof_with_advice` accepts
    /// for a proof's own point does not pass here.
    ///
    /// The coefficient of the claims is drawn from a copy of the transcript
    /// each time and so is the same for all claims of the aggregate; the
    /// batch is as strong as that one challenge.
    pub fn add_aggregate(&mut self, proofs: &[(Proof, SxyAdvice)], aggregate: &Aggregate) -> (r:
        Result<(), VerifierError>)
        ensures
            final(self)@.wf(),
            r is Ok <==> aggregate_available(old(self)@, pairs_view(proofs@), aggregate@),
            r is Ok ==> final(self)@ == after_aggregate(
                old(self)@,
                pairs_view(proofs@),
                aggregate@,
            ),
            r is Err ==> r == Err::<(), VerifierError>(VerifierError::InternalConsistency)
                && final(self)@ == old(self)@,
    {
        let ghost pairs = pairs_view(proofs@);
        let ghost a = aggregate@;
        let mut transcript = fresh_transcript();
        let mut y_values: Vec<Scalar> = Vec::new();
        let mut i: usize = 0;
        while i < proofs.len()
            invariant
                i <= proofs.len(),
                pairs == pairs_view(proofs@),
                y_values.len() == i,
                transcript@ == advice_transcript(pairs, i as nat),
                forall|j: int| 0 <= j < i ==> (#[trigger] y_values[j])@ == proof_challenges(pairs[j].0).y,
            decreases proofs.len() - i,
        {
            let mut own = fresh_transcript();
            own.commit_point(&proofs[i].0.r);
            y_values.push(own.get_challenge_scalar());
            transcript.commit_point(&proofs[i].1.s);
            i += 1;
        }
        let z = transcript.get_challenge_scalar();
        transcript.commit_point(&aggregate.c);
        let w = transcript.get_challenge_scalar();
        let ghost c = aggregate_challenges(pairs, a);
        assert(transcript@ == c.rest);

        proof {
            use_type_invariant(&self.checked);
        }
        if !self.checked.circuit.has_wires_in_range(self.checked.n) {
            return Err(VerifierError::InternalConsistency);
        }
        let szw = match evaluate_s(&self.checked.circuit, self.checked.n, z, w) {
            Some(s) => s,
            None => {
                return Err(VerifierError::InternalConsistency);
            },
        };

        {
            let random = transcript.fork().get_challenge_scalar();
            self.batch.add_opening(aggregate.opening, random, w);
            self.batch.add_commitment(aggregate.c, random);
            self.batch.add_opening_value(szw, random);
        }
        let ghost b1 = self.batch@;

        let count = if proofs.len() <= aggregate.c_openings.len() {
            proofs.len()
        } else {
            aggregate.c_openings.len()
        };
        let mut j: usize = 0;
        while j < count
            invariant
                j <= count,
                count <= proofs.len(),
                count <= aggregate.c_openings.len(),
                y_values.len() == proofs.len(),
                pairs == pairs_view(proofs@),
                a == aggregate@,
                transcript@ == c.rest,
                c == aggregate_challenges(pairs, a),
                forall|k: int|
                    0 <= k < y_values.len() ==> (#[trigger] y_values[k])@ == proof_challenges(
                        pairs[k].0,
                    ).y,
                self@ == (MultiVerifierView {
                    batch: with_c_openings(b1, pairs, a, c.random, j as nat),
                    ..old(self)@
                }),
            decreases count - j,
        {
            let random = transcript.fork().get_challenge_scalar();
            self.batch.add_opening(aggregate.c_openings[j].0, random, y_values[j]);
            self.batch.add_commitment(aggregate.c, random);
            self.batch.add_opening_value(aggregate.c_openings[j].1, random);
            j += 1;
        }
        let ghost b2 = self.batch@;

        let random = transcript.fork().get_challenge_scalar();
        let mut expected = Scalar::zero();
        let mut j: usize = 0;
        while j < count
            invariant
                j <= count,
                count <= proofs.len(),
                count <= aggregate.c_openings.len(),
                pairs == pairs_view(proofs@),
                a == aggregate@,
                random@ == c.random,
                transcript@ == drawn(c.rest, j as nat),
                expected@ == expected_value(pairs, c.rest, j as nat),
                self@ == (MultiVerifierView {
                    batch: with_advice_commitments(b2, pairs, c.rest, c.random, j as nat),
                    ..old(self)@
                }),
            decreases count - j,
        {
            let r = transcript.get_challenge_scalar();
            expected = expected.add(&proofs[j].1.szy.mul(&r));
            self.batch.add_commitment(proofs[j].1.s, r.mul(&random));
            j += 1;
        }

        self.batch.add_opening_value(expected, random);
        self.batch.add_opening(aggregate.s_opening, random, z);
        Ok(())
    }

    /// Adds the claims of a proof and hands back the proof's `z`.
    fn push_proof(&mut self, proof: &Proof, inputs: &[Scalar], sxy: Option<Scalar>) -> (r: Result<
        Scalar,
        VerifierError,
    >)
        ensures
            final(self)@.wf(),
            r is Ok <==> s_available(old(self)@, proof@, option_view(sxy)),
            r is Ok ==> r->Ok_0@ == proof_challenges(proof@).z && final(self)@ == after_proof(
                old(self)@,
                proof@,
                scalars_view(inputs@),
                option_view(sxy),
            ),
            r is Err ==> r->Err_0 == VerifierError::InternalConsistency && final(self)@ == old(
                self,
            )@,
    {
        proof {
            use_type_invariant(&self.checked);
        }
        let mut transcript = fresh_transcript();
        transcript.commit_point(&proof.r);
        let y = transcript.get_challenge_scalar();
        transcript.commit_point(&proof.t);
        let z = transcript.get_challenge_scalar();
        transcript.commit_scalar(&proof.rz);
        transcript.commit_scalar(&proof.rzy);
        let r1 = transcript.get_challenge_scalar();
        transcript.commit_point(&proof.z_opening);
        transcript.commit_point(&proof.zy_opening);
        let first = transcript.get_challenge_scalar();
        let second = transcript.get_challenge_scalar();

        // s(z, y), before anything enters the batch
        let szy = match sxy {
            Some(s) => s,
            None => {
                if !self.checked.circuit.has_wires_in_range(self.checked.n) {
                    return Err(VerifierError::InternalConsistency);
                }
                match evaluate_s(&self.checked.circuit, self.checked.n, z, y) {
                    Some(s) => s,
                    None => {
                        return Err(VerifierError::InternalConsistency);
                    },
                }
            },
        };

        // r opens to rzy at zy
        self.batch.add_opening(proof.zy_opening, first, z.mul(&y));
        self.batch.add_commitment_max_n(proof.r, first);
        self.batch.add_opening_value(proof.rzy, first);

        // t(z, y) from what is known
        let ky = self.k_at(inputs, &y);
        let tzy = proof.rzy.add(&szy).mul(&proof.rz).sub(&ky);

        // t and r open at z together, kept apart by r1
        self.batch.add_opening(proof.z_opening, second, z);
        self.batch.add_opening_value(tzy, second);
        self.batch.add_commitment(proof.t, second);
        let scaled = second.mul(&r1);
        self.batch.add_opening_value(proof.rz, scaled);
        self.batch.add_commitment_max_n(proof.r, scaled);
        Ok(z)
    }

    /// The power of each public input in `k(Y)`, the constant one first.
    pub fn get_k_map(&self) -> (r: Vec<usize>)
        ensures
            r@ == self@.k_map,
            r@ == k_powers(self@.circuit),
    {
        proof {
            use_type_invariant(&self.checked);
        }
        self.checked.k_map.clone()
    }

    /// The number of multiplication gates of the circuit.
    pub fn get_n(&self) -> (r: usize)
        ensures
            r == self@.n,
            r == gate_count(self@.circuit),
    {
        proof {
            use_type_invariant(&self.checked);
        }
        self.checked.n
    }

    /// The number of linear constraints of the circuit.
    pub fn get_q(&self) -> (r: usize)
        ensures
            r == self@.q,
            r == constraint_count(self@.circuit),
    {
        proof {
            use_type_invariant(&self.checked);
        }
        self.checked.q
    }

    /// The verdict on all claims gathered: `true` where the one pairing
    /// check over the batch holds. The verifier is used up.
    pub fn check_all(self) -> (r: bool)
        ensures
            r == self@.batch.verdict(),
    {
        self.batch.check_all()
    }
}

/// A transcript that has absorbed nothing.
fn fresh_transcript() -> (r: Transcript)
    ensures
        r@ == Seq::<u8>::empty(),
{
    let none: [u8; 0] = [];
    let r = Transcript::new(array_as_slice(&none));
    assert(r@ =~= Seq::<u8>::empty());
    r
}

/// The number that a field element stands for, where there is one.
pub open spec fn option_view(s: Option<Scalar>) -> Option<nat> {
    match s {
        Some(x) => Some(x@),
        None => None,
    }
}

} // verus!
