use sonic_verifier::circuit::Circuit;
use sonic_verifier::circuit::Coeff;
use sonic_verifier::circuit::Event;
use sonic_verifier::circuit::Variable;
use sonic_verifier::field::Scalar;
use sonic_verifier::poly::SxEval;
use sonic_verifier::poly_y::SyEval;

fn two_gates() -> Vec<Event> {
    vec![
        Event::MultiplicationGate,
        Event::LinearConstraint,
        Event::Coefficient(Variable::A(1), Coeff::One),
        Event::KPower(1),
        Event::MultiplicationGate,
        Event::LinearConstraint,
        Event::Coefficient(Variable::C(2), Coeff::NegativeOne),
        Event::Coefficient(Variable::B(1), Coeff::Zero),
    ]
}

#[test]
fn preprocess_counts_gates_constraints_and_inputs() {
    let found = Circuit::new(two_gates()).preprocess();
    assert_eq!(found.n, 2);
    assert_eq!(found.q, 2);
    assert_eq!(found.k_map, vec![1]);
}

#[test]
fn preprocess_of_an_empty_circuit() {
    let found = Circuit::new(vec![]).preprocess();
    assert_eq!(found.n, 0);
    assert_eq!(found.q, 0);
    assert_eq!(found.k_map, Vec::<usize>::new());
}

#[test]
fn preprocess_keeps_the_order_of_the_powers() {
    let events = vec![Event::KPower(7), Event::KPower(2), Event::KPower(7), Event::KPower(0)];
    let found = Circuit::new(events).preprocess();
    assert_eq!(found.k_map, vec![7, 2, 7, 0]);
}

#[test]
fn preprocess_twice_gives_the_same() {
    let circuit = Circuit::new(two_gates());
    assert_eq!(circuit.preprocess(), circuit.preprocess());
}

#[test]
fn preprocess_only_counts() {
    // wires that no gate has do not stop the pass
    let mut beyond = two_gates();
    beyond.push(Event::Coefficient(Variable::A(3), Coeff::One));
    let found = Circuit::new(beyond).preprocess();
    assert_eq!((found.n, found.q, found.k_map), (2, 2, vec![1]));

    let mut zero = two_gates();
    zero.push(Event::Coefficient(Variable::C(0), Coeff::Zero));
    let found = Circuit::new(zero).preprocess();
    assert_eq!((found.n, found.q, found.k_map), (2, 2, vec![1]));

    let no_gate = vec![Event::LinearConstraint, Event::Coefficient(Variable::B(1), Coeff::One)];
    let found = Circuit::new(no_gate).preprocess();
    assert_eq!((found.n, found.q, found.k_map), (0, 1, vec![]));
}

#[test]
fn preprocess_accepts_a_wire_of_a_later_gate() {
    let events = vec![
        Event::LinearConstraint,
        Event::Coefficient(Variable::B(1), Coeff::One),
        Event::MultiplicationGate,
    ];
    let found = Circuit::new(events).preprocess();
    assert_eq!(found.n, 1);
    assert_eq!(found.q, 1);
}

#[test]
fn wires_are_checked_against_a_number_of_gates() {
    let circuit = Circuit::new(two_gates());
    assert!(circuit.has_wires_in_range(2));
    assert!(circuit.has_wires_in_range(3));
    assert!(!circuit.has_wires_in_range(1));
    assert!(!circuit.has_wires_in_range(0));
    assert!(Circuit::new(vec![]).has_wires_in_range(0));
    let zero = Circuit::new(vec![Event::Coefficient(Variable::A(0), Coeff::One)]);
    assert!(!zero.has_wires_in_range(5));
}

#[test]
fn variable_index() {
    assert_eq!(Variable::A(3).index(), 3);
    assert_eq!(Variable::B(4).index(), 4);
    assert_eq!(Variable::C(5).index(), 5);
}

#[test]
fn evaluator_by_wires_step_by_step() {
    // one gate, y = 2, x = 3; with h = 1/2:
    // before any event s = -(2 + h) * 9
    let two = Scalar::from_u64(2);
    let three = Scalar::from_u64(3);
    let nine = Scalar::from_u64(9);
    let half = two.inverse().unwrap();
    let gate = two.add(&half).neg().mul(&nine);
    assert_eq!(SxEval::new(two, 1).unwrap().finalize(three), Some(gate));

    // a term on the right wire before any constraint has the power y^1:
    // s = 7 * 2 * 3 + gate
    let mut eval = SxEval::new(two, 1).unwrap();
    eval.insert_coefficient(Variable::B(1), Coeff::Full(Scalar::from_u64(7)));
    assert_eq!(eval.finalize(three), Some(Scalar::from_u64(42).add(&gate)));

    // after one constraint the power is y^2; on the left wire x^-1:
    // s = -1 * 4 / 3 + gate
    let mut eval = SxEval::new(two, 1).unwrap();
    eval.new_linear_constraint();
    eval.insert_coefficient(Variable::A(1), Coeff::NegativeOne);
    let third = three.inverse().unwrap();
    assert_eq!(eval.finalize(three), Some(Scalar::from_u64(4).mul(&third).neg().add(&gate)));

    // on the output wire x^2, through the events: s = 4 * 9 + gate
    let mut eval = SxEval::new(two, 1).unwrap();
    eval.absorb(&Event::MultiplicationGate);
    eval.absorb(&Event::LinearConstraint);
    eval.absorb(&Event::KPower(1));
    eval.absorb(&Event::Coefficient(Variable::C(1), Coeff::One));
    eval.absorb(&Event::Coefficient(Variable::C(1), Coeff::Zero));
    assert_eq!(eval.finalize(three), Some(Scalar::from_u64(36).add(&gate)));
}

#[test]
fn evaluator_by_wires_needs_points_with_an_inverse() {
    assert!(SxEval::new(Scalar::zero(), 3).is_none());
    let eval = SxEval::new(Scalar::one(), 3).unwrap();
    assert_eq!(eval.finalize(Scalar::zero()), None);
}

#[test]
fn evaluator_by_powers_step_by_step() {
    // one gate, x = 3, y = 2; with h = 1/2:
    // before any event s = -9 * 2 - 9 * h
    let two = Scalar::from_u64(2);
    let three = Scalar::from_u64(3);
    let nine = Scalar::from_u64(9);
    let half = two.inverse().unwrap();
    let gate = nine.neg().mul(&two).add(&nine.neg().mul(&half));
    assert_eq!(SyEval::new(three, 1, 1).unwrap().finalize(two), Some(gate));

    // after one constraint a term on the right wire: s = 7 * 3 * 4 + gate
    let mut eval = SyEval::new(three, 1, 1).unwrap();
    eval.new_linear_constraint();
    eval.insert_coefficient(Variable::B(1), Coeff::Full(Scalar::from_u64(7)));
    assert_eq!(eval.finalize(two), Some(Scalar::from_u64(84).add(&gate)));

    // through the events, on the output wire: s = -1 * 9 * 4 + gate
    let mut eval = SyEval::new(three, 1, 1).unwrap();
    eval.absorb(&Event::MultiplicationGate);
    eval.absorb(&Event::LinearConstraint);
    eval.absorb(&Event::Coefficient(Variable::C(1), Coeff::NegativeOne));
    assert_eq!(eval.finalize(two), Some(Scalar::from_u64(36).neg().add(&gate)));
}

#[test]
fn evaluator_by_powers_needs_points_with_an_inverse() {
    assert!(SyEval::new(Scalar::zero(), 3, 2).is_none());
    assert!(SyEval::new(Scalar::one(), usize::MAX, 1).is_none());
    let eval = SyEval::new(Scalar::one(), 3, 2).unwrap();
    assert_eq!(eval.finalize(Scalar::zero()), None);
}
