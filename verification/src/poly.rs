//! The polynomial `s(X, Y)` of a circuit's linear constraints, evaluated
//! with one of its two variables fixed.
//!
//! With `n` gates and the coefficients `u`, `v`, `w` of the left, right and
//! output wires in the constraints `1..=q`,
//!
//! ```text
//! s(X, Y) = sum_{i=1..n} u_i(Y) X^{-i} + sum_{i=1..n} v_i(Y) X^i
//!         + sum_{i=1..n} w_i(Y) X^{i+n}
//! u_i(Y) = sum_q Y^{q+n} u_{q,i}        v_i(Y) = sum_q Y^{q+n} v_{q,i}
//! w_i(Y) = -Y^i - Y^{-i} + sum_q Y^{q+n} w_{q,i}
//! ```
//!
//! [`SxEval`] fixes `Y`, collects `u_i`, `v_i` and `w_i` while the circuit's
//! events pass, and folds the powers of `X` in at the end.

use crate::circuit::constraint_count;
use crate::circuit::wires_in_range;
use crate::circuit::Circuit;
use crate::circuit::Coeff;
use crate::circuit::CoeffView;
use crate::circuit::Event;
use crate::circuit::EventView;
use crate::circuit::Variable;
use crate::field::fadd;
use crate::field::finv;
use crate::field::fmul;
use crate::field::fneg;
use crate::field::fpow;
use crate::field::fsub;
use crate::field::scalars_view;
use crate::field::Scalar;
use vstd::prelude::*;

verus! {

/// A wire's polynomial after one more term: the term is the coefficient
/// times the present power of `Y`.
pub open spec fn add_term(sum: nat, coeff: CoeffView, y_power: nat) -> nat {
    match coeff {
        CoeffView::Zero => sum,
        CoeffView::One => fadd(sum, y_power),
        CoeffView::NegativeOne => fsub(sum, y_power),
        CoeffView::Full(value) => fadd(sum, fmul(value, y_power)),
    }
}

/// The value at `y` of a wire's polynomial: `start` and, for each term that
/// the events give to the wire, the coefficient times `y^(e + q)`, where `q`
/// is the number of linear constraints up to the term.
pub open spec fn wire_sum(start: nat, events: Seq<EventView>, wire: Variable, y: nat, e: nat) -> nat
    decreases events.len(),
{
    if events.len() == 0 {
        start
    } else {
        let earlier = wire_sum(start, events.drop_last(), wire, y, e);
        match events.last() {
            EventView::Coefficient(var, coeff) => if var == wire {
                add_term(earlier, coeff, fpow(y, e + constraint_count(events.drop_last())))
            } else {
                earlier
            },
            _ => earlier,
        }
    }
}

/// What gate `i` itself gives to its output wire: `-y^i - y^{-i}`.
pub open spec fn gate_term(i: nat, y: nat) -> nat {
    fneg(fadd(fpow(y, i), fpow(finv(y), i)))
}

/// `acc` and the sum of the coefficients, the `j`-th times `p^(first + j)`.
pub open spec fn power_sum(acc: nat, coeffs: Seq<nat>, p: nat, first: nat) -> nat
    decreases coeffs.len(),
{
    if coeffs.len() == 0 {
        acc
    } else {
        fadd(
            power_sum(acc, coeffs.drop_last(), p, first),
            fmul(coeffs.last(), fpow(p, (first + coeffs.len() - 1) as nat)),
        )
    }
}

/// The polynomials of the left wires of a circuit with `n` gates, at `y`.
pub open spec fn u_values(events: Seq<EventView>, n: nat, y: nat) -> Seq<nat> {
    Seq::new(n, |i: int| wire_sum(0, events, Variable::A((i + 1) as usize), y, n))
}

/// The polynomials of the right wires of a circuit with `n` gates, at `y`.
pub open spec fn v_values(events: Seq<EventView>, n: nat, y: nat) -> Seq<nat> {
    Seq::new(n, |i: int| wire_sum(0, events, Variable::B((i + 1) as usize), y, n))
}

/// The polynomials of the output wires of a circuit with `n` gates, at `y`.
pub open spec fn w_values(events: Seq<EventView>, n: nat, y: nat) -> Seq<nat> {
    Seq::new(
        n,
        |i: int|
            wire_sum(gate_term((i + 1) as nat, y), events, Variable::C((i + 1) as usize), y, n),
    )
}

/// `s(x, y)` for the circuit with the given events and `n` gates.
pub open spec fn s_value(events: Seq<EventView>, n: nat, x: nat, y: nat) -> nat {
    power_sum(
        power_sum(power_sum(0, u_values(events, n, y), finv(x), 1), v_values(events, n, y), x, 1),
        w_values(events, n, y),
        x,
        n + 1,
    )
}

/// What an evaluator holds, as numbers.
pub struct SxEvalView {
    /// The value that `Y` is fixed to.
    pub y: nat,
    /// The number of gates.
    pub n: nat,
    /// The number of linear constraints seen.
    pub q: nat,
    /// The polynomials of the left wires so far.
    pub u: Seq<nat>,
    /// The polynomials of the right wires so far.
    pub v: Seq<nat>,
    /// The polynomials of the output wires so far.
    pub w: Seq<nat>,
}

/// The evaluator of `s(X, y)` for a fixed `y`.
pub struct SxEval {
    y: Scalar,
    // y^(n + q)
    yqn: Scalar,
    u: Vec<Scalar>,
    v: Vec<Scalar>,
    w: Vec<Scalar>,
    q: Ghost<nat>,
}

impl View for SxEval {
    type V = SxEvalView;

    closed spec fn view(&self) -> SxEvalView {
        SxEvalView {
            y: self.y@,
            n: self.u.len() as nat,
            q: self.q@,
            u: scalars_view(self.u@),
            v: scalars_view(self.v@),
            w: scalars_view(self.w@),
        }
    }
}

impl SxEval {
    /// Whether the evaluator holds one value for each wire and the power of
    /// `y` that goes with the constraints seen.
    pub closed spec fn wf(&self) -> bool {
        &&& sized(self@)
        &&& self.v.len() == self.u.len()
        &&& self.w.len() == self.u.len()
        &&& self.yqn@ == fpow(self.y@, (self.u.len() + self.q@) as nat)
    }

    /// The evaluator for a circuit with `n` gates, before any event: nothing
    /// on the input wires, and on each output wire what its gate gives. There
    /// is none for `y = 0`, which has no inverse.
    pub fn new(y: Scalar, n: usize) -> (r: Option<SxEval>)
        ensures
            r is None <==> y@ == 0,
            r is Some ==> {
                &&& r->0.wf()
                &&& r->0@.y == y@
                &&& r->0@.n == n
                &&& r->0@.q == 0
                &&& r->0@.u == Seq::new(n as nat, |i: int| 0nat)
                &&& r->0@.v == Seq::new(n as nat, |i: int| 0nat)
                &&& r->0@.w == Seq::new(n as nat, |i: int| gate_term((i + 1) as nat, y@))
            },
    {
        let y_inv = match y.inverse() {
            Some(inv) => inv,
            None => {
                return None;
            },
        };
        let yqn = y.pow(n as u128);
        let mut u: Vec<Scalar> = Vec::new();
        let mut v: Vec<Scalar> = Vec::new();
        let mut w: Vec<Scalar> = Vec::new();
        let mut tmp1 = Scalar::one();
        let mut tmp2 = Scalar::one();
        let mut i: usize = 0;
        while i < n
            invariant
                i <= n,
                u.len() == i,
                v.len() == i,
                w.len() == i,
                y_inv@ == finv(y@),
                tmp1@ == fpow(y@, i as nat),
                tmp2@ == fpow(finv(y@), i as nat),
                forall|j: int| 0 <= j < i ==> (#[trigger] u[j])@ == 0,
                forall|j: int| 0 <= j < i ==> (#[trigger] v[j])@ == 0,
                forall|j: int| 0 <= j < i ==> (#[trigger] w[j])@ == gate_term((j + 1) as nat, y@),
            decreases n - i,
        {
            tmp1 = tmp1.mul(&y);
            tmp2 = tmp2.mul(&y_inv);
            u.push(Scalar::zero());
            v.push(Scalar::zero());
            w.push(tmp1.add(&tmp2).neg());
            i += 1;
        }
        let r = SxEval { y, yqn, u, v, w, q: Ghost(0) };
        assert(r@.u =~= Seq::new(n as nat, |i: int| 0nat));
        assert(r@.v =~= Seq::new(n as nat, |i: int| 0nat));
        assert(r@.w =~= Seq::new(n as nat, |i: int| gate_term((i + 1) as nat, y@)));
        Some(r)
    }

    /// Takes note of a new linear constraint: the terms that follow have the
    /// next power of `y`.
    pub fn new_linear_constraint(&mut self)
        requires
            old(self).wf(),
        ensures
            final(self).wf(),
            final(self)@ == (SxEvalView { q: old(self)@.q + 1, ..old(self)@ }),
    {
        self.yqn = self.yqn.mul(&self.y);
        self.q = Ghost((self.q@ + 1) as nat);
    }

    /// Adds a term of the latest linear constraint to the polynomial of its
    /// wire.
    pub fn insert_coefficient(&mut self, var: Variable, coeff: Coeff)
        requires
            old(self).wf(),
            1 <= var.spec_index() <= old(self)@.n,
        ensures
            final(self).wf(),
            final(self)@ == with_term(old(self)@, var, coeff@),
    {
        let yqn = self.yqn;
        match var {
            Variable::A(index) => {
                let sum = add_coefficient(&self.u[index - 1], &coeff, &yqn);
                self.u.set(index - 1, sum);
                assert(scalars_view(self.u@) =~= scalars_view(old(self).u@).update(
                    index - 1,
                    sum@,
                ));
            },
            Variable::B(index) => {
                let sum = add_coefficient(&self.v[index - 1], &coeff, &yqn);
                self.v.set(index - 1, sum);
                assert(scalars_view(self.v@) =~= scalars_view(old(self).v@).update(
                    index - 1,
                    sum@,
                ));
            },
            Variable::C(index) => {
                let sum = add_coefficient(&self.w[index - 1], &coeff, &yqn);
                self.w.set(index - 1, sum);
                assert(scalars_view(self.w@) =~= scalars_view(old(self).w@).update(
                    index - 1,
                    sum@,
                ));
            },
        }
    }

    /// Takes one event of a circuit's synthesis. Gates and the powers of
    /// public inputs leave the evaluator as it is.
    pub fn absorb(&mut self, event: &Event)
        requires
            old(self).wf(),
            match event@ {
                EventView::Coefficient(var, _) => 1 <= var.spec_index() <= old(self)@.n,
                _ => true,
            },
        ensures
            final(self).wf(),
            final(self)@ == after_event(old(self)@, event@),
    {
        match event {
            Event::LinearConstraint => {
                self.new_linear_constraint();
            },
            Event::Coefficient(var, coeff) => {
                self.insert_coefficient(*var, *coeff);
            },
            _ => {},
        }
    }

    /// Takes all events of a circuit. Afterwards each wire holds its
    /// polynomial over the events, continued from what it held before.
    pub fn synthesize(&mut self, circuit: &Circuit)
        requires
            old(self).wf(),
            wires_in_range(circuit@, old(self)@.n),
        ensures
            final(self).wf(),
            final(self)@ == after_events(old(self)@, circuit@),
            sized(final(self)@),
    {
        let mut i: usize = 0;
        while i < circuit.events.len()
            invariant
                i <= circuit.events.len(),
                self.wf(),
                sized(old(self)@),
                wires_in_range(circuit@, old(self)@.n),
                self@ == after_events(old(self)@, circuit@.take(i as int)),
            decreases circuit.events.len() - i,
        {
            proof {
                let prefix = circuit@.take(i + 1);
                assert(prefix.drop_last() =~= circuit@.take(i as int));
                assert(prefix.last() == circuit@[i as int]);
                assert(wires_in_range(circuit@.take(i as int), old(self)@.n)) by {
                    assert forall|j: int| 0 <= j < i implies match #[trigger] circuit@.take(
                        i as int,
                    )[j] {
                        EventView::Coefficient(var, _) => 1 <= var.spec_index() <= old(self)@.n,
                        _ => true,
                    } by {
                        assert(circuit@.take(i as int)[j] == circuit@[j]);
                    }
                }
                lemma_after_events(old(self)@, circuit@.take(i as int));
            }
            self.absorb(&circuit.events[i]);
            i += 1;
        }
        assert(circuit@.take(circuit.events.len() as int) =~= circuit@);
    }

    /// The value of `s(x, y)`: the wires' polynomials with the powers of `x`
    /// that belong to them, summed up. There is none for `x = 0`, which has
    /// no inverse.
    pub fn finalize(self, x: Scalar) -> (r: Option<Scalar>)
        requires
            self.wf(),
        ensures
            r is None <==> x@ == 0,
            r is Some ==> r->0@ == total(self@, x@),
    {
        let x_inv = match x.inverse() {
            Some(inv) => inv,
            None => {
                return None;
            },
        };
        let n = self.u.len();
        let mut acc = Scalar::zero();
        let mut tmp = Scalar::one();
        let mut i: usize = 0;
        while i < n
            invariant
                i <= n,
                n == self.u.len(),
                x_inv@ == finv(x@),
                tmp@ == fpow(finv(x@), i as nat),
                acc@ == power_sum(0, self@.u.take(i as int), finv(x@), 1),
            decreases n - i,
        {
            tmp = tmp.mul(&x_inv);
            acc = acc.add(&self.u[i].mul(&tmp));
            proof {
                let prefix = self@.u.take(i + 1);
                assert(prefix.drop_last() =~= self@.u.take(i as int));
            }
            i += 1;
        }
        assert(self@.u.take(n as int) =~= self@.u);
        let ghost after_u = acc@;
        tmp = Scalar::one();
        i = 0;
        while i < n
            invariant
                i <= n,
                n == self.v.len(),
                tmp@ == fpow(x@, i as nat),
                acc@ == power_sum(after_u, self@.v.take(i as int), x@, 1),
            decreases n - i,
        {
            tmp = tmp.mul(&x);
            acc = acc.add(&self.v[i].mul(&tmp));
            proof {
                let prefix = self@.v.take(i + 1);
                assert(prefix.drop_last() =~= self@.v.take(i as int));
            }
            i += 1;
        }
        assert(self@.v.take(n as int) =~= self@.v);
        let ghost after_v = acc@;
        i = 0;
        while i < n
            invariant
                i <= n,
                n == self.w.len(),
                tmp@ == fpow(x@, (n + i) as nat),
                acc@ == power_sum(after_v, self@.w.take(i as int), x@, (n + 1) as nat),
            decreases n - i,
        {
            tmp = tmp.mul(&x);
            acc = acc.add(&self.w[i].mul(&tmp));
            proof {
                let prefix = self@.w.take(i + 1);
                assert(prefix.drop_last() =~= self@.w.take(i as int));
            }
            i += 1;
        }
        assert(self@.w.take(n as int) =~= self@.w);
        Some(acc)
    }
}

/// The sum of a wire with one more term.
fn add_coefficient(sum: &Scalar, coeff: &Coeff, yqn: &Scalar) -> (r: Scalar)
    ensures
        r@ == add_term(sum@, coeff@, yqn@),
{
    match coeff {
        Coeff::Zero => *sum,
        Coeff::One => sum.add(yqn),
        Coeff::NegativeOne => sum.sub(yqn),
        Coeff::Full(value) => sum.add(&value.mul(yqn)),
    }
}

/// The evaluator's values after a term of the latest linear constraint.
pub open spec fn with_term(s: SxEvalView, var: Variable, coeff: CoeffView) -> SxEvalView {
    let y_power = fpow(s.y, s.n + s.q);
    match var {
        Variable::A(i) => SxEvalView { u: s.u.update(i - 1, add_term(s.u[i - 1], coeff, y_power)), ..s },
        Variable::B(i) => SxEvalView { v: s.v.update(i - 1, add_term(s.v[i - 1], coeff, y_power)), ..s },
        Variable::C(i) => SxEvalView { w: s.w.update(i - 1, add_term(s.w[i - 1], coeff, y_power)), ..s },
    }
}

/// The evaluator's values after one event.
pub open spec fn after_event(s: SxEvalView, event: EventView) -> SxEvalView {
    match event {
        EventView::LinearConstraint => SxEvalView { q: s.q + 1, ..s },
        EventView::Coefficient(var, coeff) => with_term(s, var, coeff),
        _ => s,
    }
}

/// The evaluator's values after a sequence of events.
pub open spec fn after_events(s: SxEvalView, events: Seq<EventView>) -> SxEvalView
    decreases events.len(),
{
    if events.len() == 0 {
        s
    } else {
        after_event(after_events(s, events.drop_last()), events.last())
    }
}

/// The sum that an evaluator's values give at `x`.
pub open spec fn total(s: SxEvalView, x: nat) -> nat {
    power_sum(power_sum(power_sum(0, s.u, finv(x), 1), s.v, x, 1), s.w, x, s.n + 1)
}

/// Whether an evaluator's values are one per wire of `n` gates.
pub open spec fn sized(s: SxEvalView) -> bool {
    &&& s.n <= usize::MAX
    &&& s.u.len() == s.n
    &&& s.v.len() == s.n
    &&& s.w.len() == s.n
}

/// After a sequence of events each wire holds its polynomial over the
/// events, continued from what it held before; the fixed value and the
/// number of wires are as before, and the constraints have been counted.
pub proof fn lemma_after_events(s: SxEvalView, events: Seq<EventView>)
    requires
        sized(s),
        wires_in_range(events, s.n),
    ensures
        sized(after_events(s, events)),
        after_events(s, events).y == s.y,
        after_events(s, events).n == s.n,
        after_events(s, events).q == s.q + constraint_count(events),
        forall|i: int|
            0 <= i < s.n ==> #[trigger] after_events(s, events).u[i] == wire_sum(
                s.u[i],
                events,
                Variable::A((i + 1) as usize),
                s.y,
                s.n + s.q,
            ),
        forall|i: int|
            0 <= i < s.n ==> #[trigger] after_events(s, events).v[i] == wire_sum(
                s.v[i],
                events,
                Variable::B((i + 1) as usize),
                s.y,
                s.n + s.q,
            ),
        forall|i: int|
            0 <= i < s.n ==> #[trigger] after_events(s, events).w[i] == wire_sum(
                s.w[i],
                events,
                Variable::C((i + 1) as usize),
                s.y,
                s.n + s.q,
            ),
    decreases events.len(),
{
    if events.len() > 0 {
        let earlier = events.drop_last();
        assert(wires_in_range(earlier, s.n)) by {
            assert forall|i: int| 0 <= i < earlier.len() implies match #[trigger] earlier[i] {
                EventView::Coefficient(var, _) => 1 <= var.spec_index() <= s.n,
                _ => true,
            } by {
                assert(earlier[i] == events[i]);
            }
        }
        lemma_after_events(s, earlier);
        assert(events.last() == events[events.len() - 1]);
    }
}

/// The value of `s(x, y)` for a circuit with `n` gates. There is none where
/// `x` or `y` is zero.
pub fn evaluate_s(circuit: &Circuit, n: usize, x: Scalar, y: Scalar) -> (r: Option<Scalar>)
    requires
        wires_in_range(circuit@, n as nat),
    ensures
        r is None <==> (x@ == 0 || y@ == 0),
        r is Some ==> r->0@ == s_value(circuit@, n as nat, x@, y@),
{
    let mut eval = match SxEval::new(y, n) {
        Some(e) => e,
        None => {
            return None;
        },
    };
    let ghost start = eval@;
    eval.synthesize(circuit);
    proof {
        lemma_after_events(start, circuit@);
        assert(eval@.u =~= u_values(circuit@, n as nat, y@));
        assert(eval@.v =~= v_values(circuit@, n as nat, y@));
        assert(eval@.w =~= w_values(circuit@, n as nat, y@));
    }
    eval.finalize(x)
}

} // verus!
