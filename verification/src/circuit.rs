//! Circuits as the events of their synthesis.
//!
//! A circuit is the sequence of events that building its constraint system
//! gives: multiplication gates, linear constraints with the terms that they
//! hold, and the marks that tie public inputs to constraints. The sequence
//! is data, so a circuit gives the same events whenever it is read.

use crate::field::Scalar;
use vstd::prelude::*;

verus! {

/// A wire of a multiplication gate: left input, right input or output of the
/// gate with the given number, counted from one.
#[derive(Clone, Copy, Debug, PartialEq, Eq)]
pub enum Variable {
    A(usize),
    B(usize),
    C(usize),
}

impl Variable {
    /// The number of the multiplication gate that owns the wire.
    pub open spec fn spec_index(self) -> usize {
        match self {
            Variable::A(i) => i,
            Variable::B(i) => i,
            Variable::C(i) => i,
        }
    }

    /// The number of the multiplication gate that owns the wire.
    pub fn index(&self) -> (r: usize)
        ensures
            r == self.spec_index(),
    {
        match self {
            Variable::A(i) => *i,
            Variable::B(i) => *i,
            Variable::C(i) => *i,
        }
    }
}

/// The coefficient of a wire in a linear constraint.
#[derive(Clone, Copy, Debug, PartialEq, Eq)]
pub enum Coeff {
    Zero,
    One,
    NegativeOne,
    Full(Scalar),
}

/// A coefficient with its field element as a number.
pub enum CoeffView {
    Zero,
    One,
    NegativeOne,
    Full(nat),
}

impl View for Coeff {
    type V = CoeffView;

    open spec fn view(&self) -> CoeffView {
        match self {
            Coeff::Zero => CoeffView::Zero,
            Coeff::One => CoeffView::One,
            Coeff::NegativeOne => CoeffView::NegativeOne,
            Coeff::Full(s) => CoeffView::Full(s@),
        }
    }
}

/// One event of a circuit's synthesis.
#[derive(Clone, Copy, Debug, PartialEq, Eq)]
pub enum Event {
    /// The next public input is bound by the linear constraint with this
    /// number: its term of `k(Y)` has this power of `Y`, offset by the
    /// number of gates.
    KPower(usize),
    /// A new multiplication gate.
    MultiplicationGate,
    /// A new linear constraint.
    LinearConstraint,
    /// A term of the latest linear constraint.
    Coefficient(Variable, Coeff),
}

/// An event with its field elements as numbers.
pub enum EventView {
    KPower(usize),
    MultiplicationGate,
    LinearConstraint,
    Coefficient(Variable, CoeffView),
}

impl View for Event {
    type V = EventView;

    open spec fn view(&self) -> EventView {
        match self {
            Event::KPower(i) => EventView::KPower(*i),
            Event::MultiplicationGate => EventView::MultiplicationGate,
            Event::LinearConstraint => EventView::LinearConstraint,
            Event::Coefficient(v, c) => EventView::Coefficient(*v, c@),
        }
    }
}

/// Why there is no verifier for a circuit.
#[derive(Clone, Copy, Debug, PartialEq, Eq)]
pub enum SynthesisError {
    /// The circuit's synthesis misses a value that it needs.
    AssignmentMissing,
    /// The circuit's synthesis finds its own wiring malformed.
    MalformedWiring,
    /// The circuit has more gates than the reference string supports.
    PolynomialDegreeTooLarge,
}

/// The number of multiplication gates among the events.
pub open spec fn gate_count(events: Seq<EventView>) -> nat
    decreases events.len(),
{
    if events.len() == 0 {
        0
    } else {
        gate_count(events.drop_last()) + if events.last() is MultiplicationGate {
            1nat
        } else {
            0nat
        }
    }
}

/// The number of linear constraints among the events.
pub open spec fn constraint_count(events: Seq<EventView>) -> nat
    decreases events.len(),
{
    if events.len() == 0 {
        0
    } else {
        constraint_count(events.drop_last()) + if events.last() is LinearConstraint {
            1nat
        } else {
            0nat
        }
    }
}

/// The powers that the events give to the public inputs, in the order of
/// the events.
pub open spec fn k_powers(events: Seq<EventView>) -> Seq<usize>
    decreases events.len(),
{
    if events.len() == 0 {
        Seq::empty()
    } else {
        let earlier = k_powers(events.drop_last());
        match events.last() {
            EventView::KPower(index) => earlier.push(index),
            _ => earlier,
        }
    }
}

/// Whether every term of a linear constraint names a wire of one of the
/// gates `1..=n`.
pub open spec fn wires_in_range(events: Seq<EventView>, n: nat) -> bool {
    forall|i: int|
        0 <= i < events.len() ==> match #[trigger] events[i] {
            EventView::Coefficient(var, _) => 1 <= var.spec_index() <= n,
            _ => true,
        }
}

/// Whether the terms of the linear constraints name only wires of the
/// circuit's own gates.
pub open spec fn well_formed(events: Seq<EventView>) -> bool {
    wires_in_range(events, gate_count(events))
}

/// What one pass over a circuit finds.
#[derive(Debug, PartialEq, Eq)]
pub struct Preprocessed {
    /// The power of each public input, the constant one first.
    pub k_map: Vec<usize>,
    /// The number of multiplication gates.
    pub n: usize,
    /// The number of linear constraints.
    pub q: usize,
}

/// A circuit: the events of its synthesis, in order.
#[derive(Debug)]
pub struct Circuit {
    pub events: Vec<Event>,
}

impl View for Circuit {
    type V = Seq<EventView>;

    open spec fn view(&self) -> Seq<EventView> {
        self.events@.map_values(|e: Event| e@)
    }
}

/// The counts never exceed the number of events.
pub proof fn lemma_counts_bounded(events: Seq<EventView>)
    ensures
        gate_count(events) <= events.len(),
        constraint_count(events) <= events.len(),
        k_powers(events).len() <= events.len(),
    decreases events.len(),
{
    if events.len() > 0 {
        lemma_counts_bounded(events.drop_last());
    }
}

impl Circuit {
    /// A circuit with the given events.
    pub fn new(events: Vec<Event>) -> (r: Circuit)
        ensures
            r.events == events,
    {
        Circuit { events }
    }

    /// Whether every term of a linear constraint names a wire of one of the
    /// gates `1..=n`.
    pub fn has_wires_in_range(&self, n: usize) -> (r: bool)
        ensures
            r == wires_in_range(self@, n as nat),
    {
        let mut i: usize = 0;
        while i < self.events.len()
            invariant
                i <= self.events.len(),
                forall|j: int|
                    0 <= j < i ==> match #[trigger] self@[j] {
                        EventView::Coefficient(var, _) => 1 <= var.spec_index() <= n,
                        _ => true,
                    },
            decreases self.events.len() - i,
        {
            match self.events[i] {
                Event::Coefficient(var, _) => {
                    let index = var.index();
                    if index == 0 || index > n {
                        assert(self@[i as int] == self.events[i as int]@);
                        return false;
                    }
                },
                _ => {},
            }
            i += 1;
        }
        true
    }

    /// One pass over the circuit that counts its gates and constraints and
    /// collects the powers of its public inputs, in the order in which the
    /// circuit gives them. Nothing is checked: the pass only counts.
    pub fn preprocess(&self) -> (r: Preprocessed)
        ensures
            r.k_map@ == k_powers(self@),
            r.n == gate_count(self@),
            r.q == constraint_count(self@),
    {
        let mut k_map: Vec<usize> = Vec::new();
        let mut n: usize = 0;
        let mut q: usize = 0;
        let mut i: usize = 0;
        while i < self.events.len()
            invariant
                i <= self.events.len(),
                k_map@ == k_powers(self@.take(i as int)),
                n == gate_count(self@.take(i as int)),
                q == constraint_count(self@.take(i as int)),
            decreases self.events.len() - i,
        {
            proof {
                let prefix = self@.take(i + 1);
                assert(prefix.drop_last() =~= self@.take(i as int));
                assert(prefix.last() == self@[i as int]);
                lemma_counts_bounded(self@.take(i as int));
            }
            match self.events[i] {
                Event::KPower(index) => {
                    k_map.push(index);
                },
                Event::MultiplicationGate => {
                    n = n + 1;
                },
                Event::LinearConstraint => {
                    q = q + 1;
                },
                Event::Coefficient(_, _) => {},
            }
            i += 1;
        }
        assert(self@.take(self.events.len() as int) =~= self@);
        Preprocessed { k_map, n, q }
    }
}

/// What takes the events of a circuit's synthesis.
pub trait Backend {
    /// The events taken so far, in order.
    spec fn taken(&self) -> Seq<EventView>;

    /// The next public input is bound by the linear constraint `index`.
    fn new_k_power(&mut self, index: usize)
        ensures
            final(self).taken() == old(self).taken().push(EventView::KPower(index)),
    ;

    /// A new multiplication gate.
    fn new_multiplication_gate(&mut self)
        ensures
            final(self).taken() == old(self).taken().push(EventView::MultiplicationGate),
    ;

    /// A new linear constraint.
    fn new_linear_constraint(&mut self)
        ensures
            final(self).taken() == old(self).taken().push(EventView::LinearConstraint),
    ;

    /// A term of the latest linear constraint.
    fn insert_coefficient(&mut self, var: Variable, coeff: Coeff)
        ensures
            final(self).taken() == old(self).taken().push(EventView::Coefficient(var, coeff@)),
    ;
}

/// What a circuit's synthesis comes to: the circuit's events, as a circuit
/// of their own, or the error that the synthesis fails with.
pub type Outcome = Result<Circuit, SynthesisError>;

/// A circuit that tells its events to a backend, as often as it is asked,
/// and each time the same.
pub trait Synthesize {
    /// What the circuit's synthesis comes to. The circuit is held to it
    /// whenever it is synthesized.
    spec fn outcome(&self) -> Outcome;

    /// Tells the backend the events of the circuit, or fails: the backend
    /// takes the events of the circuit's outcome and nothing else, or the
    /// synthesis fails with the error of the outcome.
    fn synthesize<B: Backend>(&self, backend: &mut B) -> (r: Result<(), SynthesisError>)
        ensures
            match (self.outcome(), r) {
                (Ok(events), Ok(_)) => final(backend).taken() == old(backend).taken() + events@,
                (Err(expected), Err(e)) => e == expected,
                _ => false,
            },
    ;
}

/// The backend that writes the events down.
#[derive(Debug)]
pub struct Recorder {
    events: Vec<Event>,
}

impl Recorder {
    /// A recorder that has taken nothing.
    pub fn new() -> (r: Recorder)
        ensures
            r.taken() == Seq::<EventView>::empty(),
    {
        let r = Recorder { events: Vec::new() };
        assert(r.taken() =~= Seq::<EventView>::empty());
        r
    }

    /// The circuit whose events are those taken.
    pub fn into_circuit(self) -> (r: Circuit)
        ensures
            r@ == self.taken(),
    {
        Circuit { events: self.events }
    }
}

impl Backend for Recorder {
    closed spec fn taken(&self) -> Seq<EventView> {
        self.events@.map_values(|e: Event| e@)
    }

    fn new_k_power(&mut self, index: usize) {
        self.events.push(Event::KPower(index));
        assert(self.taken() =~= old(self).taken().push(EventView::KPower(index)));
    }

    fn new_multiplication_gate(&mut self) {
        self.events.push(Event::MultiplicationGate);
        assert(self.taken() =~= old(self).taken().push(EventView::MultiplicationGate));
    }

    fn new_linear_constraint(&mut self) {
        self.events.push(Event::LinearConstraint);
        assert(self.taken() =~= old(self).taken().push(EventView::LinearConstraint));
    }

    fn insert_coefficient(&mut self, var: Variable, coeff: Coeff) {
        self.events.push(Event::Coefficient(var, coeff));
        assert(self.taken() =~= old(self).taken().push(EventView::Coefficient(var, coeff@)));
    }
}

impl Synthesize for Circuit {
    /// The circuit itself, which its synthesis never fails to tell.
    open spec fn outcome(&self) -> Outcome {
        Ok(*self)
    }

    /// Tells the backend the events of the circuit, which never fails.
    fn synthesize<B: Backend>(&self, backend: &mut B) -> (r: Result<(), SynthesisError>) {
        let mut i: usize = 0;
        while i < self.events.len()
            invariant
                i <= self.events.len(),
                backend.taken() == old(backend).taken() + self@.take(i as int),
            decreases self.events.len() - i,
        {
            let ghost before = backend.taken();
            match self.events[i] {
                Event::KPower(index) => {
                    backend.new_k_power(index);
                },
                Event::MultiplicationGate => {
                    backend.new_multiplication_gate();
                },
                Event::LinearConstraint => {
                    backend.new_linear_constraint();
                },
                Event::Coefficient(var, coeff) => {
                    backend.insert_coefficient(var, coeff);
                },
            }
            assert(backend.taken() == before.push(self@[i as int]));
            assert(self@.take(i + 1) =~= self@.take(i as int).push(self@[i as int]));
            assert(before.push(self@[i as int]) =~= old(backend).taken() + self@.take(i + 1));
            i += 1;
        }
        assert(self@.take(self.events.len() as int) =~= self@);
        Ok(())
    }
}

/// The outcome of a circuit's synthesis: the events that the circuit tells,
/// as a circuit of their own, or the circuit's error where its synthesis
/// fails.
pub fn record<C: Synthesize>(circuit: &C) -> (r: Result<Circuit, SynthesisError>)
    ensures
        match (circuit.outcome(), r) {
            (Ok(events), Ok(recorded)) => recorded@ == events@,
            (Err(expected), Err(e)) => e == expected,
            _ => false,
        },
{
    let mut recorder = Recorder::new();
    match circuit.synthesize(&mut recorder) {
        Ok(()) => {
            proof {
                if let Ok(events) = circuit.outcome() {
                    assert(Seq::<EventView>::empty() + events@ =~= events@);
                }
            }
            Ok(recorder.into_circuit())
        },
        Err(e) => Err(e),
    }
}

} // verus!
