//! Proofs made with the secrets of a small setup, against the batched
//! verifier. Knowing the secrets, a commitment to a polynomial is one scalar
//! multiplication by the polynomial's value at the secret point, which is
//! the group element that an honest prover would reach from the reference
//! string.

use ff::Field;
use ff::PrimeField;
use group::CurveAffine;
use group::CurveProjective;
use pairing::bls12_381::Fr;
use pairing::bls12_381::FrRepr;
use pairing::bls12_381::G1Affine;
use pairing::bls12_381::G2Affine;
use sonic_verifier::circuit::record;
use sonic_verifier::circuit::Backend;
use sonic_verifier::circuit::Circuit;
use sonic_verifier::circuit::Coeff;
use sonic_verifier::circuit::Event;
use sonic_verifier::circuit::Outcome;
use sonic_verifier::circuit::Recorder;
use sonic_verifier::circuit::SynthesisError;
use sonic_verifier::circuit::Synthesize;
use sonic_verifier::circuit::Variable;
use sonic_verifier::field::Scalar;
use sonic_verifier::group::G1Point;
use sonic_verifier::group::G2Point;
use sonic_verifier::multiverifier::MultiVerifier;
use sonic_verifier::multiverifier::VerifierError;
use sonic_verifier::poly::evaluate_s;
use sonic_verifier::poly_y::evaluate_s_by_y;
use sonic_verifier::protocol::Aggregate;
use sonic_verifier::protocol::Proof;
use sonic_verifier::protocol::SxyAdvice;
use sonic_verifier::srs::Srs;
use sonic_verifier::transcript::Transcript;

const N: usize = 4;
const D: usize = 16;

fn fr(x: u64) -> Fr {
    Fr::from_repr(FrRepr::from(x)).unwrap()
}

fn to_scalar(x: &Fr) -> Scalar {
    Scalar::from_limbs(x.into_repr().0).unwrap()
}

fn to_fr(s: &Scalar) -> Fr {
    Fr::from_repr(FrRepr(s.to_limbs())).unwrap()
}

fn add(a: Fr, b: Fr) -> Fr {
    let mut r = a;
    r.add_assign(&b);
    r
}

fn sub(a: Fr, b: Fr) -> Fr {
    let mut r = a;
    r.sub_assign(&b);
    r
}

fn mul(a: Fr, b: Fr) -> Fr {
    let mut r = a;
    r.mul_assign(&b);
    r
}

fn neg(a: Fr) -> Fr {
    let mut r = a;
    r.negate();
    r
}

fn inv(a: Fr) -> Fr {
    a.inverse().unwrap()
}

/// `base^e` for an exponent of either sign.
fn power(base: Fr, e: i64) -> Fr {
    if e >= 0 {
        base.pow([e as u64])
    } else {
        inv(base).pow([(-e) as u64])
    }
}

fn g1(p: G1Affine) -> G1Point {
    let mut bytes = [0u8; 48];
    bytes.copy_from_slice(p.into_compressed().as_ref());
    G1Point { bytes }
}

fn g2(p: G2Affine) -> G2Point {
    let mut bytes = [0u8; 96];
    bytes.copy_from_slice(p.into_compressed().as_ref());
    G2Point { bytes }
}

/// `g^e`.
fn g1_power(e: Fr) -> G1Point {
    g1(G1Affine::one().mul(e.into_repr()).into_affine())
}

/// `h^e`.
fn g2_power(e: Fr) -> G2Point {
    g2(G2Affine::one().mul(e.into_repr()).into_affine())
}

struct Setup {
    x: Fr,
    alpha: Fr,
    srs: Srs,
}

fn setup() -> Setup {
    let x = fr(0x1234_5678_9abc_def1);
    let alpha = fr(0x0fed_cba9_8765_4321);
    let h = g2(G2Affine::one());
    let mut h_negative_x = vec![h; D + 1];
    h_negative_x[D - N] = g2_power(power(x, -((D - N) as i64)));
    let srs = Srs {
        d: D,
        g: g1(G1Affine::one()),
        h_negative_x,
        h_alpha: g2_power(alpha),
        h_alpha_x: g2_power(mul(alpha, x)),
    };
    Setup { x, alpha, srs }
}

/// The commitment to a polynomial of full degree with the value `at_x` at
/// the secret point.
fn commit(s: &Setup, at_x: Fr) -> G1Point {
    g1_power(mul(s.alpha, at_x))
}

/// The commitment to a polynomial bounded to the degree `N` with the value
/// `at_x` at the secret point.
fn commit_max_n(s: &Setup, at_x: Fr) -> G1Point {
    g1_power(mul(s.alpha, mul(power(s.x, (D - N) as i64), at_x)))
}

/// The opening at `point` of a polynomial with the value `at_x` at the
/// secret point and the value `value` at `point`.
fn open(s: &Setup, at_x: Fr, value: Fr, point: Fr) -> G1Point {
    g1_power(mul(sub(at_x, value), inv(sub(s.x, point))))
}

/// Four gates and three constraints. The first constraint binds the
/// constant one, the second the public input, the third ties wires of the
/// last two gates together.
fn events() -> Vec<Event> {
    vec![
        Event::MultiplicationGate,
        Event::LinearConstraint,
        Event::Coefficient(Variable::A(1), Coeff::One),
        Event::KPower(1),
        Event::MultiplicationGate,
        Event::LinearConstraint,
        Event::Coefficient(Variable::A(2), Coeff::One),
        Event::KPower(2),
        Event::MultiplicationGate,
        Event::MultiplicationGate,
        Event::LinearConstraint,
        Event::Coefficient(Variable::C(3), Coeff::One),
        Event::Coefficient(Variable::B(4), Coeff::NegativeOne),
        Event::Coefficient(Variable::B(4), Coeff::NegativeOne),
        Event::Coefficient(Variable::A(1), Coeff::Full(Scalar::from_u64(5))),
        Event::Coefficient(Variable::A(4), Coeff::NegativeOne),
    ]
}

struct Wires {
    a: Vec<Fr>,
    b: Vec<Fr>,
    c: Vec<Fr>,
}

/// The wires that satisfy the circuit for the public input `v`.
fn wires(v: Fr) -> Wires {
    Wires {
        a: vec![fr(1), v, fr(3), fr(5)],
        b: vec![fr(2), fr(7), fr(4), fr(6)],
        c: vec![fr(2), mul(fr(7), v), fr(12), fr(30)],
    }
}

/// `r(x, y)`.
fn r_poly(w: &Wires, x: Fr, y: Fr) -> Fr {
    let xy = mul(x, y);
    let mut acc = Fr::zero();
    for i in 1..=N {
        let e = i as i64;
        acc = add(acc, mul(w.a[i - 1], power(xy, e)));
        acc = add(acc, mul(w.b[i - 1], power(xy, -e)));
        acc = add(acc, mul(w.c[i - 1], power(xy, -e - N as i64)));
    }
    acc
}

/// `s(x, y)`, term by term from the events.
fn s_poly(x: Fr, y: Fr) -> Fr {
    let mut acc = Fr::zero();
    let mut q: i64 = 0;
    for event in events() {
        match event {
            Event::LinearConstraint => q += 1,
            Event::Coefficient(var, coeff) => {
                let value = match coeff {
                    Coeff::Zero => Fr::zero(),
                    Coeff::One => Fr::one(),
                    Coeff::NegativeOne => neg(Fr::one()),
                    Coeff::Full(s) => to_fr(&s),
                };
                let x_power = match var {
                    Variable::A(i) => power(x, -(i as i64)),
                    Variable::B(i) => power(x, i as i64),
                    Variable::C(i) => power(x, (i + N) as i64),
                };
                acc = add(acc, mul(value, mul(power(y, q + N as i64), x_power)));
            }
            _ => {}
        }
    }
    for i in 1..=N {
        let e = i as i64;
        let gate = neg(add(power(y, e), power(y, -e)));
        acc = add(acc, mul(gate, power(x, e + N as i64)));
    }
    acc
}

/// `k(y)` for the public input `v`.
fn k_poly(v: Fr, y: Fr) -> Fr {
    add(power(y, 1 + N as i64), mul(v, power(y, 2 + N as i64)))
}

/// `t(x, y)`.
fn t_poly(w: &Wires, v: Fr, x: Fr, y: Fr) -> Fr {
    sub(mul(r_poly(w, x, Fr::one()), add(r_poly(w, x, y), s_poly(x, y))), k_poly(v, y))
}

/// The proof of an honest prover for the public input `v`.
fn prove(s: &Setup, v: Fr) -> Proof {
    let w = wires(v);
    let one = Fr::one();
    let mut transcript = Transcript::new(&[]);

    let r = commit_max_n(s, r_poly(&w, s.x, one));
    transcript.commit_point(&r);
    let y = to_fr(&transcript.get_challenge_scalar());

    let t = commit(s, t_poly(&w, v, s.x, y));
    transcript.commit_point(&t);
    let z = to_fr(&transcript.get_challenge_scalar());

    let rz = r_poly(&w, z, one);
    let rzy = r_poly(&w, z, y);
    transcript.commit_scalar(&to_scalar(&rz));
    transcript.commit_scalar(&to_scalar(&rzy));
    let r1 = to_fr(&transcript.get_challenge_scalar());

    let zy_opening = open(s, r_poly(&w, s.x, one), rzy, mul(z, y));
    let combined_at_x = add(t_poly(&w, v, s.x, y), mul(r1, r_poly(&w, s.x, one)));
    let combined_at_z = add(t_poly(&w, v, z, y), mul(r1, rz));
    let z_opening = open(s, combined_at_x, combined_at_z, z);

    Proof { r, t, rz: to_scalar(&rz), rzy: to_scalar(&rzy), z_opening, zy_opening }
}

/// The advice of an honest helper for a proof with the challenge `y`, for
/// the value of `s` at the point `z`.
fn advise_at(s: &Setup, y: Fr, z: Fr) -> SxyAdvice {
    let szy = s_poly(z, y);
    SxyAdvice {
        s: commit(s, s_poly(s.x, y)),
        szy: to_scalar(&szy),
        opening: open(s, s_poly(s.x, y), szy, z),
    }
}

/// The advice of an honest helper for a proof, at the proof's own point.
fn advise(s: &Setup, proof: &Proof) -> SxyAdvice {
    let (y, z) = MultiVerifier::challenges(proof);
    advise_at(s, to_fr(&y), to_fr(&z))
}

/// The point that an aggregate shares: the challenge after the advice
/// commitments of all proofs.
fn aggregate_point(pairs: &[(Proof, SxyAdvice)]) -> Fr {
    let mut transcript = Transcript::new(&[]);
    for (_, advice) in pairs {
        transcript.commit_point(&advice.s);
    }
    to_fr(&transcript.get_challenge_scalar())
}

/// The aggregate of an honest helper for proofs with their advices.
fn aggregate(s: &Setup, pairs: &[(Proof, SxyAdvice)]) -> Aggregate {
    let mut transcript = Transcript::new(&[]);
    let mut ys = Vec::new();
    for (proof, advice) in pairs {
        ys.push(to_fr(&MultiVerifier::challenges(proof).0));
        transcript.commit_point(&advice.s);
    }
    let z = to_fr(&transcript.get_challenge_scalar());

    // s(z, Y), committed with the secret point in the place of Y
    let c_at_x = s_poly(z, s.x);
    let c = commit(s, c_at_x);
    transcript.commit_point(&c);
    let w = to_fr(&transcript.get_challenge_scalar());

    let opening = open(s, c_at_x, s_poly(z, w), w);
    let mut c_openings = Vec::new();
    for y in &ys {
        let value = s_poly(z, *y);
        c_openings.push((open(s, c_at_x, value, *y), to_scalar(&value)));
    }

    // the advices' polynomials s(X, y), combined, open at z to their values
    let mut combined_at_x = Fr::zero();
    let mut combined_at_z = Fr::zero();
    for y in &ys {
        let r = to_fr(&transcript.get_challenge_scalar());
        combined_at_x = add(combined_at_x, mul(r, s_poly(s.x, *y)));
        combined_at_z = add(combined_at_z, mul(r, s_poly(z, *y)));
    }
    let s_opening = open(s, combined_at_x, combined_at_z, z);

    Aggregate { c, s_opening, c_openings, opening }
}

fn fresh_verifier(s: &Setup) -> MultiVerifier {
    MultiVerifier::new(Circuit::new(events()), &s.srs).unwrap()
}

fn plus_one(x: &Scalar) -> Scalar {
    x.add(&Scalar::one())
}

/// The circuit of `events`, written against a backend. It may fail at the
/// end of its synthesis.
struct Written {
    fails: bool,
}

impl Synthesize for Written {
    fn outcome(&self) -> Outcome {
        if self.fails {
            Err(SynthesisError::AssignmentMissing)
        } else {
            Ok(Circuit::new(events()))
        }
    }

    fn synthesize<B: Backend>(&self, backend: &mut B) -> Result<(), SynthesisError> {
        // the constant one
        backend.new_multiplication_gate();
        backend.new_linear_constraint();
        backend.insert_coefficient(Variable::A(1), Coeff::One);
        backend.new_k_power(1);
        // the public input
        backend.new_multiplication_gate();
        backend.new_linear_constraint();
        backend.insert_coefficient(Variable::A(2), Coeff::One);
        backend.new_k_power(2);
        // two more gates and what ties them together
        backend.new_multiplication_gate();
        backend.new_multiplication_gate();
        backend.new_linear_constraint();
        backend.insert_coefficient(Variable::C(3), Coeff::One);
        backend.insert_coefficient(Variable::B(4), Coeff::NegativeOne);
        backend.insert_coefficient(Variable::B(4), Coeff::NegativeOne);
        backend.insert_coefficient(Variable::A(1), Coeff::Full(Scalar::from_u64(5)));
        backend.insert_coefficient(Variable::A(4), Coeff::NegativeOne);
        if self.fails {
            Err(SynthesisError::AssignmentMissing)
        } else {
            Ok(())
        }
    }
}

#[test]
fn recording_a_circuit_gives_its_events() {
    let circuit = record(&Written { fails: false }).unwrap();
    assert_eq!(circuit.events, events());
    assert_eq!(record(&Written { fails: true }).err(), Some(SynthesisError::AssignmentMissing));
    // the events themselves are a circuit that gives them again
    assert_eq!(record(&circuit).unwrap().events, events());
}

#[test]
fn recording_a_circuit_gives_its_outcome() {
    for fails in [false, true] {
        let circuit = Written { fails };
        let named = circuit.outcome().map(|c| c.events);
        assert_eq!(record(&circuit).map(|c| c.events), named);
    }
}

#[test]
fn recorder_takes_events_in_order() {
    let mut recorder = Recorder::new();
    recorder.new_linear_constraint();
    recorder.new_k_power(9);
    recorder.insert_coefficient(Variable::B(2), Coeff::Zero);
    recorder.new_multiplication_gate();
    assert_eq!(
        recorder.into_circuit().events,
        vec![
            Event::LinearConstraint,
            Event::KPower(9),
            Event::Coefficient(Variable::B(2), Coeff::Zero),
            Event::MultiplicationGate,
        ]
    );
    assert_eq!(Recorder::new().into_circuit().events, vec![]);
}

#[test]
fn circuit_written_against_a_backend_is_verified_like_its_events() {
    let s = setup();
    let input = fr(11);
    let proof = prove(&s, input);
    let mut v = MultiVerifier::new(Written { fails: false }, &s.srs).unwrap();
    assert_eq!(v.get_k_map(), vec![1, 2]);
    assert_eq!(v.get_n(), 4);
    assert_eq!(v.get_q(), 3);
    v.add_proof(&proof, &[to_scalar(&input)], None).unwrap();
    assert!(v.check_all());
}

#[test]
fn failure_of_the_circuit_is_passed_on() {
    let s = setup();
    assert_eq!(
        MultiVerifier::new(Written { fails: true }, &s.srs).err(),
        Some(SynthesisError::AssignmentMissing)
    );
}

#[test]
fn verifier_from_events_is_the_one_from_the_circuit() {
    let s = setup();
    let input = fr(11);
    let proof = prove(&s, input);
    let mut v = MultiVerifier::with_events(Circuit::new(events()), &s.srs).unwrap();
    assert_eq!(v.get_k_map(), vec![1, 2]);
    v.add_proof(&proof, &[to_scalar(&input)], None).unwrap();
    assert!(v.check_all());
}

#[test]
fn preprocessing_finds_the_structure() {
    let s = setup();
    let v = fresh_verifier(&s);
    assert_eq!(v.get_k_map(), vec![1, 2]);
    assert_eq!(v.get_n(), 4);
    assert_eq!(v.get_q(), 3);
}

#[test]
fn construction_is_deterministic() {
    let s = setup();
    let first = fresh_verifier(&s);
    let second = fresh_verifier(&s);
    assert_eq!(first.get_k_map(), second.get_k_map());
    assert_eq!(first.get_n(), second.get_n());
    assert_eq!(first.get_q(), second.get_q());
}

/// The events of the circuit, and one more term on a wire of a gate that
/// the circuit does not have.
fn events_with_an_unknown_wire() -> Vec<Event> {
    let mut bad = events();
    bad.push(Event::Coefficient(Variable::B(5), Coeff::One));
    bad
}

#[test]
fn construction_takes_a_circuit_with_an_unknown_wire() {
    let s = setup();
    let v = MultiVerifier::new(Circuit::new(events_with_an_unknown_wire()), &s.srs).unwrap();
    assert_eq!(v.get_k_map(), vec![1, 2]);
    assert_eq!(v.get_n(), 4);
    assert_eq!(v.get_q(), 3);
    assert!(v.check_all());

    // one term on the wire of gate 0, over a string for no gate at all
    let one_term = vec![Event::Coefficient(Variable::A(0), Coeff::One)];
    let small = Srs { d: 0, h_negative_x: vec![s.srs.h_negative_x[0]], ..s.srs.clone() };
    let v = MultiVerifier::new(Circuit::new(one_term), &small).unwrap();
    assert_eq!(v.get_k_map(), vec![]);
    assert_eq!(v.get_n(), 0);
    assert_eq!(v.get_q(), 0);
    assert!(v.check_all());
}

#[test]
fn unknown_wire_stops_the_evaluation_and_nothing_else() {
    let s = setup();
    let input = fr(11);
    let proof = prove(&s, input);
    let advice = advise(&s, &proof);
    let inputs = [to_scalar(&input)];

    // without a value of s the circuit would have to be evaluated
    let mut v = MultiVerifier::new(Circuit::new(events_with_an_unknown_wire()), &s.srs).unwrap();
    assert_eq!(v.add_proof(&proof, &inputs, None), Err(VerifierError::InternalConsistency));
    // and the verifier is as it was: a bad proof added now is all it holds
    let mut bad = proof;
    bad.rz = plus_one(&proof.rz);
    v.add_proof(&bad, &inputs, Some(advice.szy)).unwrap();
    assert!(!v.check_all());
    let mut v = MultiVerifier::new(Circuit::new(events_with_an_unknown_wire()), &s.srs).unwrap();
    assert_eq!(v.add_proof(&proof, &inputs, None), Err(VerifierError::InternalConsistency));
    assert!(v.check_all());

    // with the value given, or with an advice, the proof is verified
    let mut v = MultiVerifier::new(Circuit::new(events_with_an_unknown_wire()), &s.srs).unwrap();
    assert_eq!(v.add_proof(&proof, &inputs, Some(advice.szy)), Ok(()));
    assert!(v.check_all());
    let mut v = MultiVerifier::new(Circuit::new(events_with_an_unknown_wire()), &s.srs).unwrap();
    v.add_proof_with_advice(&proof, &inputs, &advice);
    assert!(v.check_all());

    // an aggregate needs the evaluation
    let pairs = two_aggregated_pairs(&s);
    let shared = aggregate(&s, &pairs);
    let mut v = MultiVerifier::new(Circuit::new(events_with_an_unknown_wire()), &s.srs).unwrap();
    assert_eq!(v.add_aggregate(&pairs, &shared), Err(VerifierError::InternalConsistency));
    assert!(v.check_all());
}

#[test]
fn construction_refuses_a_short_reference_string() {
    let mut s = setup();
    s.srs.d = 3;
    assert_eq!(
        MultiVerifier::new(Circuit::new(events()), &s.srs).err(),
        Some(SynthesisError::PolynomialDegreeTooLarge)
    );
    let mut cut = setup();
    cut.srs.h_negative_x.truncate(D - N);
    assert_eq!(
        MultiVerifier::new(Circuit::new(events()), &cut.srs).err(),
        Some(SynthesisError::PolynomialDegreeTooLarge)
    );
}

#[test]
fn evaluator_agrees_with_the_sum_of_terms() {
    let circuit = Circuit::new(events());
    let x = fr(0x1111_2222_3333_4444);
    let y = fr(0x5555_6666_7777_8888);
    let got = evaluate_s(&circuit, N, to_scalar(&x), to_scalar(&y)).unwrap();
    assert_eq!(to_fr(&got), s_poly(x, y));
}

#[test]
fn evaluator_by_powers_agrees_with_the_sum_of_terms() {
    let circuit = Circuit::new(events());
    let x = fr(0x1111_2222_3333_4444);
    let y = fr(0x5555_6666_7777_8888);
    let got = evaluate_s_by_y(&circuit, N, 3, to_scalar(&x), to_scalar(&y)).unwrap();
    assert_eq!(to_fr(&got), s_poly(x, y));
    // room for more constraints than the circuit has changes nothing
    let roomy = evaluate_s_by_y(&circuit, N, 7, to_scalar(&x), to_scalar(&y)).unwrap();
    assert_eq!(roomy, got);
}

#[test]
fn the_two_evaluators_agree() {
    let circuit = Circuit::new(events());
    for (x, y) in [(2u64, 3u64), (1, 1), (0xffff_ffff_ffff_ffff, 5), (7, 0xdead_beef)] {
        let (x, y) = (Scalar::from_u64(x), Scalar::from_u64(y));
        let by_wires = evaluate_s(&circuit, N, x, y);
        assert!(by_wires.is_some());
        assert_eq!(evaluate_s_by_y(&circuit, N, 3, x, y), by_wires);
    }
}

#[test]
fn evaluator_of_a_circuit_without_constraints_sums_the_gates() {
    // s(x, y) = -(y + 1/y) x^2 for one gate
    let circuit = Circuit::new(vec![Event::MultiplicationGate]);
    let (x, y) = (fr(3), fr(2));
    let expected = neg(mul(add(y, inv(y)), power(x, 2)));
    let by_wires = evaluate_s(&circuit, 1, to_scalar(&x), to_scalar(&y)).unwrap();
    assert_eq!(to_fr(&by_wires), expected);
    let by_powers = evaluate_s_by_y(&circuit, 1, 0, to_scalar(&x), to_scalar(&y)).unwrap();
    assert_eq!(to_fr(&by_powers), expected);
    // and nothing at all without gates
    let empty = Circuit::new(vec![]);
    assert_eq!(
        evaluate_s(&empty, 0, to_scalar(&x), to_scalar(&y)),
        Some(Scalar::zero())
    );
    assert_eq!(
        evaluate_s_by_y(&empty, 0, 0, to_scalar(&x), to_scalar(&y)),
        Some(Scalar::zero())
    );
}

#[test]
fn evaluator_takes_one_term_at_a_time() {
    // one gate, one constraint with the single term 5 * a_1:
    // s(x, y) = 5 y^2 / x - (y + 1/y) x^2
    let circuit = Circuit::new(vec![
        Event::MultiplicationGate,
        Event::LinearConstraint,
        Event::Coefficient(Variable::A(1), Coeff::Full(Scalar::from_u64(5))),
    ]);
    let (x, y) = (fr(3), fr(2));
    let expected = sub(
        mul(fr(5), mul(power(y, 2), inv(x))),
        mul(add(y, inv(y)), power(x, 2)),
    );
    let by_wires = evaluate_s(&circuit, 1, to_scalar(&x), to_scalar(&y)).unwrap();
    assert_eq!(to_fr(&by_wires), expected);
    let by_powers = evaluate_s_by_y(&circuit, 1, 1, to_scalar(&x), to_scalar(&y)).unwrap();
    assert_eq!(to_fr(&by_powers), expected);
}

#[test]
fn evaluator_by_powers_has_no_value_at_zero() {
    let circuit = Circuit::new(events());
    let nine = Scalar::from_u64(9);
    assert_eq!(evaluate_s_by_y(&circuit, N, 3, Scalar::zero(), nine), None);
    assert_eq!(evaluate_s_by_y(&circuit, N, 3, nine, Scalar::zero()), None);
    assert_eq!(evaluate_s_by_y(&circuit, N, usize::MAX, nine, nine), None);
}

#[test]
fn evaluator_has_no_value_at_zero() {
    let circuit = Circuit::new(events());
    let x = Scalar::from_u64(9);
    assert_eq!(evaluate_s(&circuit, N, Scalar::zero(), x), None);
    assert_eq!(evaluate_s(&circuit, N, x, Scalar::zero()), None);
}

#[test]
fn k_is_the_sum_over_the_public_inputs() {
    let s = setup();
    let v = fresh_verifier(&s);
    let y = fr(0x0abc_def0_1234_5678);
    let input = fr(11);
    let got = v.k_at(&[to_scalar(&input)], &to_scalar(&y));
    assert_eq!(to_fr(&got), k_poly(input, y));
    // the constant one alone, where no input is given
    let alone = v.k_at(&[], &to_scalar(&y));
    assert_eq!(to_fr(&alone), power(y, 5));
    // an input without a power is left out
    let more = v.k_at(&[to_scalar(&input), Scalar::from_u64(99)], &to_scalar(&y));
    assert_eq!(to_fr(&more), k_poly(input, y));
}

#[test]
fn honest_proof_is_accepted() {
    let s = setup();
    let input = fr(11);
    let proof = prove(&s, input);
    let mut v = fresh_verifier(&s);
    assert_eq!(v.add_proof(&proof, &[to_scalar(&input)], None), Ok(()));
    assert!(v.check_all());
}

#[test]
fn honest_proof_for_another_input_is_rejected() {
    let s = setup();
    let proof = prove(&s, fr(11));
    let mut v = fresh_verifier(&s);
    assert_eq!(v.add_proof(&proof, &[Scalar::from_u64(12)], None), Ok(()));
    assert!(!v.check_all());
}

#[test]
fn corrupted_rz_is_rejected() {
    let s = setup();
    let input = fr(11);
    let honest = prove(&s, input);
    let mut v = fresh_verifier(&s);
    v.add_proof(&honest, &[to_scalar(&input)], None).unwrap();
    assert!(v.check_all());

    let mut corrupted = honest;
    corrupted.rz = plus_one(&honest.rz);
    let mut v = fresh_verifier(&s);
    v.add_proof(&corrupted, &[to_scalar(&input)], None).unwrap();
    assert!(!v.check_all());
}

#[test]
fn corrupted_rzy_is_rejected() {
    let s = setup();
    let input = fr(11);
    let mut proof = prove(&s, input);
    proof.rzy = plus_one(&proof.rzy);
    let mut v = fresh_verifier(&s);
    v.add_proof(&proof, &[to_scalar(&input)], None).unwrap();
    assert!(!v.check_all());
}

#[test]
fn substituted_r_is_rejected() {
    let s = setup();
    let input = fr(11);
    let mut proof = prove(&s, input);
    proof.r = g1_power(fr(77));
    let mut v = fresh_verifier(&s);
    v.add_proof(&proof, &[to_scalar(&input)], None).unwrap();
    assert!(!v.check_all());
}

#[test]
fn substituted_t_is_rejected() {
    let s = setup();
    let input = fr(11);
    let mut proof = prove(&s, input);
    proof.t = g1_power(fr(78));
    let mut v = fresh_verifier(&s);
    v.add_proof(&proof, &[to_scalar(&input)], None).unwrap();
    assert!(!v.check_all());
}

#[test]
fn bytes_that_are_no_point_are_rejected() {
    let s = setup();
    let input = fr(11);
    let mut proof = prove(&s, input);
    proof.z_opening = G1Point { bytes: [0u8; 48] };
    let mut v = fresh_verifier(&s);
    v.add_proof(&proof, &[to_scalar(&input)], None).unwrap();
    assert!(!v.check_all());
}

#[test]
fn empty_batch_is_accepted() {
    let s = setup();
    assert!(fresh_verifier(&s).check_all());
}

#[test]
fn two_honest_proofs_are_accepted_together() {
    let s = setup();
    let mut v = fresh_verifier(&s);
    for input in [fr(11), fr(500)] {
        let proof = prove(&s, input);
        v.add_proof(&proof, &[to_scalar(&input)], None).unwrap();
    }
    assert!(v.check_all());
}

#[test]
fn one_bad_proof_spoils_the_batch() {
    let s = setup();
    let mut v = fresh_verifier(&s);
    let good = prove(&s, fr(11));
    v.add_proof(&good, &[Scalar::from_u64(11)], None).unwrap();
    let mut bad = prove(&s, fr(500));
    bad.rz = plus_one(&bad.rz);
    v.add_proof(&bad, &[Scalar::from_u64(500)], None).unwrap();
    assert!(!v.check_all());
}

#[test]
fn advice_and_recomputation_agree() {
    let s = setup();
    let input = fr(11);
    let proof = prove(&s, input);
    let advice = advise(&s, &proof);

    let mut with_advice = fresh_verifier(&s);
    with_advice.add_proof_with_advice(&proof, &[to_scalar(&input)], &advice);
    let mut recomputed = fresh_verifier(&s);
    recomputed.add_proof(&proof, &[to_scalar(&input)], None).unwrap();
    let mut supplied = fresh_verifier(&s);
    supplied.add_proof(&proof, &[to_scalar(&input)], Some(advice.szy)).unwrap();

    assert!(with_advice.check_all());
    assert!(recomputed.check_all());
    assert!(supplied.check_all());
}

#[test]
fn advice_carries_the_value_of_the_evaluator() {
    let s = setup();
    let proof = prove(&s, fr(11));
    let advice = advise(&s, &proof);
    let (y, z) = MultiVerifier::challenges(&proof);
    assert_eq!(evaluate_s(&Circuit::new(events()), N, z, y), Some(advice.szy));
}

#[test]
fn wrong_advice_is_rejected() {
    let s = setup();
    let input = fr(11);
    let proof = prove(&s, input);
    let mut advice = advise(&s, &proof);
    advice.szy = plus_one(&advice.szy);
    let mut v = fresh_verifier(&s);
    v.add_proof_with_advice(&proof, &[to_scalar(&input)], &advice);
    assert!(!v.check_all());
}

#[test]
fn wrong_supplied_value_is_rejected() {
    let s = setup();
    let input = fr(11);
    let proof = prove(&s, input);
    let advice = advise(&s, &proof);
    let mut v = fresh_verifier(&s);
    v.add_proof(&proof, &[to_scalar(&input)], Some(plus_one(&advice.szy))).unwrap();
    assert!(!v.check_all());
}

/// Two proofs, each with the advice for its own point.
fn two_pairs(s: &Setup) -> Vec<(Proof, SxyAdvice)> {
    let mut pairs = Vec::new();
    for input in [fr(11), fr(500)] {
        let proof = prove(s, input);
        let advice = advise(s, &proof);
        pairs.push((proof, advice));
    }
    pairs
}

/// The same two proofs, each with the advice for the point that their
/// aggregate shares. The point follows from the advices' commitments, which
/// do not depend on it.
fn two_aggregated_pairs(s: &Setup) -> Vec<(Proof, SxyAdvice)> {
    let own = two_pairs(s);
    let z = aggregate_point(&own);
    own.iter()
        .map(|(proof, _)| (*proof, advise_at(s, to_fr(&MultiVerifier::challenges(proof).0), z)))
        .collect()
}

#[test]
fn aggregate_of_two_proofs_is_accepted() {
    let s = setup();
    let pairs = two_aggregated_pairs(&s);
    let shared = aggregate(&s, &pairs);
    // the advices carry the values to which the shared commitment opens
    assert_eq!(shared.c_openings[0].1, pairs[0].1.szy);
    assert_eq!(shared.c_openings[1].1, pairs[1].1.szy);

    // the aggregate alone
    let mut alone = fresh_verifier(&s);
    assert_eq!(alone.add_aggregate(&pairs, &shared), Ok(()));
    assert!(alone.check_all());

    // each proof on its own, with the advice for its own point
    let own = two_pairs(&s);
    let mut first = fresh_verifier(&s);
    first.add_proof_with_advice(&own[0].0, &[Scalar::from_u64(11)], &own[0].1);
    assert!(first.check_all());
    let mut second = fresh_verifier(&s);
    second.add_proof_with_advice(&own[1].0, &[Scalar::from_u64(500)], &own[1].1);
    assert!(second.check_all());

    // all of it in one batch
    let mut v = fresh_verifier(&s);
    v.add_proof_with_advice(&own[0].0, &[Scalar::from_u64(11)], &own[0].1);
    v.add_proof_with_advice(&own[1].0, &[Scalar::from_u64(500)], &own[1].1);
    assert_eq!(v.add_aggregate(&pairs, &shared), Ok(()));
    assert!(v.check_all());
}

#[test]
fn aggregate_of_one_proof_is_accepted() {
    let s = setup();
    let pairs = vec![two_aggregated_pairs(&s).remove(0)];
    // one advice alone gives another shared point
    let proof = pairs[0].0;
    let y = to_fr(&MultiVerifier::challenges(&proof).0);
    let pairs = vec![(proof, advise_at(&s, y, aggregate_point(&pairs)))];
    let shared = aggregate(&s, &pairs);
    let mut v = fresh_verifier(&s);
    v.add_aggregate(&pairs, &shared).unwrap();
    assert!(v.check_all());
}

#[test]
fn aggregate_expects_the_values_of_the_advices() {
    let s = setup();
    // the advices are for the proofs' own points, where s has other values
    // than at the point that the aggregate shares
    let pairs = two_pairs(&s);
    let shared = aggregate(&s, &pairs);
    assert_ne!(shared.c_openings[0].1, pairs[0].1.szy);
    let mut v = fresh_verifier(&s);
    v.add_aggregate(&pairs, &shared).unwrap();
    assert!(!v.check_all());
}

#[test]
fn aggregate_with_a_wrong_advice_value_is_rejected() {
    let s = setup();
    let mut pairs = two_aggregated_pairs(&s);
    let shared = aggregate(&s, &pairs);
    pairs[1].1.szy = plus_one(&pairs[1].1.szy);
    let mut v = fresh_verifier(&s);
    v.add_aggregate(&pairs, &shared).unwrap();
    assert!(!v.check_all());
}

#[test]
fn aggregate_with_a_wrong_value_is_rejected() {
    let s = setup();
    let pairs = two_aggregated_pairs(&s);
    let mut shared = aggregate(&s, &pairs);
    shared.c_openings[1].1 = plus_one(&shared.c_openings[1].1);
    let mut v = fresh_verifier(&s);
    v.add_aggregate(&pairs, &shared).unwrap();
    assert!(!v.check_all());
}

#[test]
fn aggregate_over_a_foreign_advice_is_rejected() {
    let s = setup();
    let mut pairs = two_aggregated_pairs(&s);
    let shared = aggregate(&s, &pairs);
    // the advice of the second proof now commits to something else
    pairs[1].1.s = g1_power(fr(79));
    let mut v = fresh_verifier(&s);
    v.add_aggregate(&pairs, &shared).unwrap();
    assert!(!v.check_all());
}

#[test]
fn aggregate_with_a_substituted_commitment_is_rejected() {
    let s = setup();
    let pairs = two_aggregated_pairs(&s);
    let mut shared = aggregate(&s, &pairs);
    shared.c = g1_power(fr(80));
    let mut v = fresh_verifier(&s);
    v.add_aggregate(&pairs, &shared).unwrap();
    assert!(!v.check_all());
}

#[test]
fn aggregate_without_proofs_is_accepted() {
    let s = setup();
    let shared = aggregate(&s, &[]);
    let mut v = fresh_verifier(&s);
    assert_eq!(v.add_aggregate(&[], &shared), Ok(()));
    assert!(v.check_all());
}
