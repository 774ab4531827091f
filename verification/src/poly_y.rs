//! The polynomial `s(X, Y)` with `X` fixed.
//!
//! [`SyEval`] is the transpose of [`crate::poly::SxEval`]: it fixes `X`,
//! collects for each power of `Y` the coefficient that the circuit's events
//! give it, and folds the powers of `Y` in at the end. The powers of `Y`
//! run from `-n` to `n + q`, so the number of linear constraints has to be
//! known beforehand.

use crate::circuit::constraint_count;
use crate::circuit::wires_in_range;
use crate::circuit::Circuit;
use crate::circuit::Coeff;
use crate::circuit::CoeffView;
use crate::circuit::Event;
use crate::circuit::EventView;
use crate::circuit::Variable;
use crate::field::fadd;
use crate::field::finv;
use crate::field::fmul;
use crate::field::fneg;
use crate::field::fpow;
use crate::field::scalars_view;
use crate::field::Scalar;
use crate::poly::power_sum;
use vstd::prelude::*;

verus! {

/// The power of `x` that belongs to a wire of a circuit with `n` gates:
/// `x^-i` for the left wire of gate `i`, `x^i` for the right wire and
/// `x^(i+n)` for the output wire.
pub open spec fn wire_power(var: Variable, x: nat, n: nat) -> nat {
    match var {
        Variable::A(i) => fpow(finv(x), i as nat),
        Variable::B(i) => fpow(x, i as nat),
        Variable::C(i) => fpow(x, i as nat + n),
    }
}

/// A coefficient times a field element.
pub open spec fn coeff_times(coeff: CoeffView, value: nat) -> nat {
    match coeff {
        CoeffView::Zero => 0,
        CoeffView::One => value,
        CoeffView::NegativeOne => fneg(value),
        CoeffView::Full(c) => fmul(value, c),
    }
}

/// What an evaluator with `X` fixed holds, as numbers.
pub struct SyEvalView {
    /// The value that `X` is fixed to.
    pub x: nat,
    /// The number of gates.
    pub n: nat,
    /// The number of linear constraints seen.
    pub q: nat,
    /// The coefficients of `Y^1, ..., Y^(n+q)`, where `q` is the number of
    /// linear constraints that the evaluator was made for.
    pub positive: Seq<nat>,
    /// The coefficients of `Y^-1, ..., Y^-n`.
    pub negative: Seq<nat>,
}

impl SyEvalView {
    /// The evaluator's values before any event: each gate `i` gives
    /// `-x^(i+n)` to `Y^i` and to `Y^-i`.
    pub open spec fn initial(x: nat, n: nat, q: nat) -> SyEvalView {
        SyEvalView {
            x,
            n,
            q: 0,
            positive: Seq::new(
                n + q,
                |j: int|
                    if j < n {
                        fneg(fpow(x, (n + j + 1) as nat))
                    } else {
                        0nat
                    },
            ),
            negative: Seq::new(n, |j: int| fneg(fpow(x, (n + j + 1) as nat))),
        }
    }

    /// Whether the evaluator can take an event: a term names a wire of one
    /// of the gates and its power of `Y` has a place, and a new constraint
    /// is one of those that the evaluator was made for.
    pub open spec fn accepts(self, event: EventView) -> bool {
        match event {
            EventView::LinearConstraint => self.n + self.q < self.positive.len(),
            EventView::Coefficient(var, _) => 1 <= var.spec_index() <= self.n && self.n + self.q
                <= self.positive.len(),
            _ => true,
        }
    }

    /// The evaluator's values after one event: a term is added to the
    /// coefficient of `Y^(n+q)`.
    pub open spec fn after_event(self, event: EventView) -> SyEvalView {
        match event {
            EventView::LinearConstraint => SyEvalView { q: self.q + 1, ..self },
            EventView::Coefficient(var, coeff) => {
                let at = self.n + self.q - 1;
                SyEvalView {
                    positive: self.positive.update(
                        at,
                        fadd(self.positive[at], coeff_times(coeff, wire_power(var, self.x, self.n))),
                    ),
                    ..self
                }
            },
            _ => self,
        }
    }

    /// The evaluator's values after a sequence of events.
    pub open spec fn after_events(self, events: Seq<EventView>) -> SyEvalView
        decreases events.len(),
    {
        if events.len() == 0 {
            self
        } else {
            self.after_events(events.drop_last()).after_event(events.last())
        }
    }

    /// The sum that the evaluator's values give at `y`.
    pub open spec fn total(self, y: nat) -> nat {
        power_sum(power_sum(0, self.positive, y, 1), self.negative, finv(y), 1)
    }
}

/// `s(x, y)` for the circuit with the given events, `n` gates and room for
/// `q` linear constraints, summed by the powers of `Y`.
pub open spec fn s_value_by_y(events: Seq<EventView>, n: nat, q: nat, x: nat, y: nat) -> nat {
    SyEvalView::initial(x, n, q).after_events(events).total(y)
}

/// The evaluator of `s(x, Y)` for a fixed `x`.
pub struct SyEval {
    max_n: usize,
    current_q: usize,
    // x^-1, ..., x^-n
    a: Vec<Scalar>,
    // x^1, ..., x^n
    b: Vec<Scalar>,
    // x^(n+1), ..., x^(2n)
    c: Vec<Scalar>,
    // coefficients of y^1, ..., y^(n+q)
    positive_coeffs: Vec<Scalar>,
    // coefficients of y^-1, ..., y^-n
    negative_coeffs: Vec<Scalar>,
    x: Ghost<nat>,
}

impl View for SyEval {
    type V = SyEvalView;

    closed spec fn view(&self) -> SyEvalView {
        SyEvalView {
            x: self.x@,
            n: self.max_n as nat,
            q: self.current_q as nat,
            positive: scalars_view(self.positive_coeffs@),
            negative: scalars_view(self.negative_coeffs@),
        }
    }
}

impl SyEval {
    /// Whether the evaluator holds the powers of `x` for each wire and one
    /// coefficient for each power of `Y`.
    pub closed spec fn wf(&self) -> bool {
        &&& self.a.len() == self.max_n
        &&& self.b.len() == self.max_n
        &&& self.c.len() == self.max_n
        &&& self.negative_coeffs.len() == self.max_n
        &&& self.positive_coeffs.len() >= self.max_n
        &&& forall|i: int|
            0 <= i < self.max_n ==> (#[trigger] self.a[i])@ == fpow(finv(self.x@), (i + 1) as nat)
        &&& forall|i: int|
            0 <= i < self.max_n ==> (#[trigger] self.b[i])@ == fpow(self.x@, (i + 1) as nat)
        &&& forall|i: int|
            0 <= i < self.max_n ==> (#[trigger] self.c[i])@ == fpow(
                self.x@,
                (i + 1 + self.max_n) as nat,
            )
    }

    /// The evaluator for a circuit with `n` gates and `q` linear
    /// constraints, before any event. There is none for `x = 0`, which has
    /// no inverse, and none where `n + q` is more than a vector can hold.
    pub fn new(x: Scalar, n: usize, q: usize) -> (r: Option<SyEval>)
        ensures
            r is None <==> (x@ == 0 || n + q > usize::MAX),
            r is Some ==> r->0.wf() && r->0@ == SyEvalView::initial(x@, n as nat, q as nat),
    {
        if q > usize::MAX - n {
            return None;
        }
        let x_inv = match x.inverse() {
            Some(inv) => inv,
            None => {
                return None;
            },
        };
        let mut a: Vec<Scalar> = Vec::new();
        let mut b: Vec<Scalar> = Vec::new();
        let mut down = Scalar::one();
        let mut up = Scalar::one();
        let mut i: usize = 0;
        while i < n
            invariant
                i <= n,
                a.len() == i,
                b.len() == i,
                x_inv@ == finv(x@),
                down@ == fpow(finv(x@), i as nat),
                up@ == fpow(x@, i as nat),
                forall|j: int| 0 <= j < i ==> (#[trigger] a[j])@ == fpow(finv(x@), (j + 1) as nat),
                forall|j: int| 0 <= j < i ==> (#[trigger] b[j])@ == fpow(x@, (j + 1) as nat),
            decreases n - i,
        {
            down = down.mul(&x_inv);
            up = up.mul(&x);
            a.push(down);
            b.push(up);
            i += 1;
        }
        let mut c: Vec<Scalar> = Vec::new();
        let mut positive_coeffs: Vec<Scalar> = Vec::new();
        let mut negative_coeffs: Vec<Scalar> = Vec::new();
        i = 0;
        while i < n
            invariant
                i <= n,
                c.len() == i,
                positive_coeffs.len() == i,
                negative_coeffs.len() == i,
                up@ == fpow(x@, (n + i) as nat),
                forall|j: int| 0 <= j < i ==> (#[trigger] c[j])@ == fpow(x@, (j + 1 + n) as nat),
                forall|j: int|
                    0 <= j < i ==> (#[trigger] positive_coeffs[j])@ == fneg(
                        fpow(x@, (n + j + 1) as nat),
                    ),
                forall|j: int|
                    0 <= j < i ==> (#[trigger] negative_coeffs[j])@ == fneg(
                        fpow(x@, (n + j + 1) as nat),
                    ),
            decreases n - i,
        {
            up = up.mul(&x);
            c.push(up);
            let minus = up.neg();
            positive_coeffs.push(minus);
            negative_coeffs.push(minus);
            i += 1;
        }
        i = 0;
        while i < q
            invariant
                i <= q,
                n + q <= usize::MAX,
                positive_coeffs.len() == n + i,
                forall|j: int|
                    0 <= j < n ==> (#[trigger] positive_coeffs[j])@ == fneg(
                        fpow(x@, (n + j + 1) as nat),
                    ),
                forall|j: int| n <= j < n + i ==> (#[trigger] positive_coeffs[j])@ == 0,
            decreases q - i,
        {
            positive_coeffs.push(Scalar::zero());
            i += 1;
        }
        let r = SyEval {
            max_n: n,
            current_q: 0,
            a,
            b,
            c,
            positive_coeffs,
            negative_coeffs,
            x: Ghost(x@),
        };
        assert(r@.positive =~= SyEvalView::initial(x@, n as nat, q as nat).positive);
        assert(r@.negative =~= SyEvalView::initial(x@, n as nat, q as nat).negative);
        Some(r)
    }

    /// Takes note of a new linear constraint: the terms that follow belong
    /// to the next power of `Y`.
    pub fn new_linear_constraint(&mut self)
        requires
            old(self).wf(),
            old(self)@.accepts(EventView::LinearConstraint),
        ensures
            final(self).wf(),
            final(self)@ == old(self)@.after_event(EventView::LinearConstraint),
    {
        self.current_q = self.current_q + 1;
    }

    /// Adds a term of the latest linear constraint to the coefficient of its
    /// power of `Y`.
    pub fn insert_coefficient(&mut self, var: Variable, coeff: Coeff)
        requires
            old(self).wf(),
            old(self)@.accepts(EventView::Coefficient(var, coeff@)),
        ensures
            final(self).wf(),
            final(self)@ == old(self)@.after_event(EventView::Coefficient(var, coeff@)),
    {
        let x_power = match var {
            Variable::A(index) => self.a[index - 1],
            Variable::B(index) => self.b[index - 1],
            Variable::C(index) => self.c[index - 1],
        };
        let term = multiply(&coeff, &x_power);
        let at = self.current_q + self.max_n - 1;
        let sum = self.positive_coeffs[at].add(&term);
        self.positive_coeffs.set(at, sum);
        assert(scalars_view(self.positive_coeffs@) =~= scalars_view(
            old(self).positive_coeffs@,
        ).update(at as int, sum@));
    }

    /// Takes one event of a circuit's synthesis. Gates and the powers of
    /// public inputs leave the evaluator as it is.
    pub fn absorb(&mut self, event: &Event)
        requires
            old(self).wf(),
            old(self)@.accepts(event@),
        ensures
            final(self).wf(),
            final(self)@ == old(self)@.after_event(event@),
    {
        match event {
            Event::LinearConstraint => {
                self.new_linear_constraint();
            },
            Event::Coefficient(var, coeff) => {
                self.insert_coefficient(*var, *coeff);
            },
            _ => {},
        }
    }

    /// Takes all events of a circuit whose wires belong to the evaluator's
    /// gates and which has no more linear constraints than the evaluator
    /// has room for.
    pub fn synthesize(&mut self, circuit: &Circuit)
        requires
            old(self).wf(),
            wires_in_range(circuit@, old(self)@.n),
            old(self)@.n + old(self)@.q + constraint_count(circuit@) <= old(self)@.positive.len(),
        ensures
            final(self).wf(),
            final(self)@ == old(self)@.after_events(circuit@),
    {
        let mut i: usize = 0;
        while i < circuit.events.len()
            invariant
                i <= circuit.events.len(),
                self.wf(),
                wires_in_range(circuit@, old(self)@.n),
                old(self)@.n + old(self)@.q + constraint_count(circuit@) <= old(
                    self,
                )@.positive.len(),
                self@ == old(self)@.after_events(circuit@.take(i as int)),
                self@.n == old(self)@.n,
                self@.positive.len() == old(self)@.positive.len(),
                self@.q == old(self)@.q + constraint_count(circuit@.take(i as int)),
            decreases circuit.events.len() - i,
        {
            proof {
                let prefix = circuit@.take(i + 1);
                assert(prefix.drop_last() =~= circuit@.take(i as int));
                assert(prefix.last() == circuit@[i as int]);
                lemma_constraint_count_of_prefix(circuit@, i + 1);
            }
            self.absorb(&circuit.events[i]);
            i += 1;
        }
        assert(circuit@.take(circuit.events.len() as int) =~= circuit@);
    }

    /// The value of `s(x, y)`: the coefficients with their powers of `y`,
    /// summed up. There is none for `y = 0`, which has no inverse.
    pub fn finalize(self, y: Scalar) -> (r: Option<Scalar>)
        requires
            self.wf(),
        ensures
            r is None <==> y@ == 0,
            r is Some ==> r->0@ == self@.total(y@),
    {
        let y_inv = match y.inverse() {
            Some(inv) => inv,
            None => {
                return None;
            },
        };
        let mut acc = Scalar::zero();
        let mut tmp = Scalar::one();
        let mut i: usize = 0;
        while i < self.positive_coeffs.len()
            invariant
                i <= self.positive_coeffs.len(),
                tmp@ == fpow(y@, i as nat),
                acc@ == power_sum(0, self@.positive.take(i as int), y@, 1),
            decreases self.positive_coeffs.len() - i,
        {
            tmp = tmp.mul(&y);
            acc = acc.add(&self.positive_coeffs[i].mul(&tmp));
            proof {
                let prefix = self@.positive.take(i + 1);
                assert(prefix.drop_last() =~= self@.positive.take(i as int));
            }
            i += 1;
        }
        assert(self@.positive.take(self.positive_coeffs.len() as int) =~= self@.positive);
        let ghost after_positive = acc@;
        tmp = Scalar::one();
        i = 0;
        while i < self.negative_coeffs.len()
            invariant
                i <= self.negative_coeffs.len(),
                y_inv@ == finv(y@),
                tmp@ == fpow(finv(y@), i as nat),
                acc@ == power_sum(after_positive, self@.negative.take(i as int), finv(y@), 1),
            decreases self.negative_coeffs.len() - i,
        {
            tmp = tmp.mul(&y_inv);
            acc = acc.add(&self.negative_coeffs[i].mul(&tmp));
            proof {
                let prefix = self@.negative.take(i + 1);
                assert(prefix.drop_last() =~= self@.negative.take(i as int));
            }
            i += 1;
        }
        assert(self@.negative.take(self.negative_coeffs.len() as int) =~= self@.negative);
        Some(acc)
    }
}

/// A coefficient times a field element.
fn multiply(coeff: &Coeff, value: &Scalar) -> (r: Scalar)
    ensures
        r@ == coeff_times(coeff@, value@),
{
    match coeff {
        Coeff::Zero => Scalar::zero(),
        Coeff::One => *value,
        Coeff::NegativeOne => value.neg(),
        Coeff::Full(c) => value.mul(c),
    }
}

/// A prefix of a sequence of events has no more linear constraints than the
/// whole.
pub proof fn lemma_constraint_count_of_prefix(events: Seq<EventView>, len: int)
    requires
        0 <= len <= events.len(),
    ensures
        constraint_count(events.take(len)) <= constraint_count(events),
    decreases events.len() - len,
{
    if len < events.len() {
        lemma_constraint_count_of_prefix(events, len + 1);
        assert(events.take(len + 1).drop_last() =~= events.take(len));
    } else {
        assert(events.take(len) =~= events);
    }
}

/// The value of `s(x, y)` for a circuit with `n` gates and at most `q`
/// linear constraints, summed by the powers of `Y`. There is none where `x`
/// or `y` is zero or `n + q` is more than a vector can hold.
pub fn evaluate_s_by_y(circuit: &Circuit, n: usize, q: usize, x: Scalar, y: Scalar) -> (r: Option<
    Scalar,
>)
    requires
        wires_in_range(circuit@, n as nat),
        constraint_count(circuit@) <= q,
    ensures
        r is None <==> (x@ == 0 || y@ == 0 || n + q > usize::MAX),
        r is Some ==> r->0@ == s_value_by_y(circuit@, n as nat, q as nat, x@, y@),
{
    let mut eval = match SyEval::new(x, n, q) {
        Some(e) => e,
        None => {
            return None;
        },
    };
    eval.synthesize(circuit);
    eval.finalize(y)
}

} // verus!
