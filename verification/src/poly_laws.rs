//! The two evaluators of `s(X, Y)` give the same value.
//!
//! [`crate::poly::SxEval`] sums by the wires and [`crate::poly_y::SyEval`]
//! by the powers of `Y`. Both sums hold the same terms: one for each term of
//! a linear constraint and two for each gate. The proof counts the terms as
//! integers and compares the two sums modulo the field's order.

use crate::circuit::constraint_count;
use crate::circuit::wires_in_range;
use crate::circuit::CoeffView;
use crate::circuit::EventView;
use crate::circuit::Variable;
use crate::field::congruent;
use crate::field::fadd;
use crate::field::finv;
use crate::field::fmul;
use crate::field::fpow;
use crate::field::fsub;
use crate::field::lemma_congruent_difference;
use crate::field::lemma_congruent_product;
use crate::field::lemma_congruent_sum;
use crate::field::lemma_fadd;
use crate::field::lemma_fmul;
use crate::field::lemma_fneg;
use crate::field::lemma_fsub;
use crate::field::lemma_same_element;
use crate::field::modulus;
use crate::poly::add_term;
use crate::poly::after_event;
use crate::poly::after_events;
use crate::poly::gate_term;
use crate::poly::lemma_after_events;
use crate::poly::power_sum;
use crate::poly::s_value;
use crate::poly::sized;
use crate::poly::total;
use crate::poly::u_values;
use crate::poly::v_values;
use crate::poly::w_values;
use crate::poly::SxEvalView;
use crate::poly_y::coeff_times;
use crate::poly_y::s_value_by_y;
use crate::poly_y::wire_power;
use crate::poly_y::SyEvalView;
use vstd::prelude::*;

verus! {

/// The integer that a coefficient stands for.
pub open spec fn coeff_int(coeff: CoeffView) -> int {
    match coeff {
        CoeffView::Zero => 0,
        CoeffView::One => 1,
        CoeffView::NegativeOne => -1,
        CoeffView::Full(value) => value as int,
    }
}

proof fn lemma_add_term(sum: nat, coeff: CoeffView, y_power: nat)
    ensures
        congruent(add_term(sum, coeff, y_power) - sum, coeff_int(coeff) * y_power),
{
    let s = sum as int;
    match coeff {
        CoeffView::Zero => {},
        CoeffView::One => {
            lemma_fadd(sum, y_power);
            lemma_congruent_difference(fadd(sum, y_power) as int, (sum + y_power) as int, s, s);
        },
        CoeffView::NegativeOne => {
            lemma_fsub(sum, y_power);
            lemma_congruent_difference(fsub(sum, y_power) as int, sum - y_power, s, s);
        },
        CoeffView::Full(value) => {
            let product = fmul(value, y_power);
            lemma_fadd(sum, product);
            lemma_fmul(value, y_power);
            lemma_congruent_difference(fadd(sum, product) as int, (sum + product) as int, s, s);
        },
    }
}

proof fn lemma_coeff_times(coeff: CoeffView, value: nat)
    ensures
        congruent(coeff_times(coeff, value) as int, coeff_int(coeff) * value),
{
    match coeff {
        CoeffView::Zero => {},
        CoeffView::One => {},
        CoeffView::NegativeOne => {
            lemma_fneg(value);
        },
        CoeffView::Full(c) => {
            lemma_fmul(value, c);
            assert(value * c == c * value) by (nonlinear_arith);
        },
    }
}

/// The sum of the coefficients as integers, the `j`-th times
/// `p^(first + j)`.
pub open spec fn weighted(coeffs: Seq<nat>, p: nat, first: nat) -> int
    decreases coeffs.len(),
{
    if coeffs.len() == 0 {
        0
    } else {
        weighted(coeffs.drop_last(), p, first) + coeffs.last() * fpow(
            p,
            (first + coeffs.len() - 1) as nat,
        )
    }
}

proof fn lemma_power_sum(acc: nat, coeffs: Seq<nat>, p: nat, first: nat)
    requires
        acc < modulus(),
    ensures
        congruent(power_sum(acc, coeffs, p, first) as int, acc + weighted(coeffs, p, first)),
        power_sum(acc, coeffs, p, first) < modulus(),
    decreases coeffs.len(),
{
    if coeffs.len() > 0 {
        let earlier = power_sum(acc, coeffs.drop_last(), p, first);
        let power = fpow(p, (first + coeffs.len() - 1) as nat);
        let term = fmul(coeffs.last(), power);
        lemma_power_sum(acc, coeffs.drop_last(), p, first);
        lemma_fadd(earlier, term);
        lemma_fmul(coeffs.last(), power);
        lemma_congruent_sum(
            earlier as int,
            acc + weighted(coeffs.drop_last(), p, first),
            term as int,
            (coeffs.last() * power) as int,
        );
    }
}

proof fn lemma_weighted_update(coeffs: Seq<nat>, k: int, value: nat, p: nat, first: nat)
    requires
        0 <= k < coeffs.len(),
    ensures
        weighted(coeffs.update(k, value), p, first) == weighted(coeffs, p, first) + (value
            - coeffs[k]) * fpow(p, (first + k) as nat),
    decreases coeffs.len(),
{
    let updated = coeffs.update(k, value);
    let power = fpow(p, (first + k) as nat) as int;
    if k == coeffs.len() - 1 {
        assert(updated.drop_last() =~= coeffs.drop_last());
        assert(value * power == coeffs[k] * power + (value - coeffs[k]) * power)
            by (nonlinear_arith);
    } else {
        assert(updated.drop_last() =~= coeffs.drop_last().update(k, value));
        lemma_weighted_update(coeffs.drop_last(), k, value, p, first);
    }
}

proof fn lemma_weighted_of_zeros(coeffs: Seq<nat>, p: nat, first: nat, from: int)
    requires
        0 <= from <= coeffs.len(),
        forall|j: int| from <= j < coeffs.len() ==> coeffs[j] == 0,
    ensures
        weighted(coeffs, p, first) == weighted(coeffs.take(from), p, first),
    decreases coeffs.len() - from,
{
    if from < coeffs.len() {
        lemma_weighted_of_zeros(coeffs.drop_last(), p, first, from);
        assert(coeffs.drop_last().take(from) =~= coeffs.take(from));
        assert(coeffs.last() * fpow(p, (first + coeffs.len() - 1) as nat) == 0)
            by (nonlinear_arith)
            requires
                coeffs.last() == 0,
        ;
    } else {
        assert(coeffs.take(from) =~= coeffs);
    }
}

proof fn lemma_weighted_next(coeffs: Seq<nat>, p: nat, first: nat, k: int)
    requires
        0 <= k < coeffs.len(),
    ensures
        weighted(coeffs.take(k + 1), p, first) == weighted(coeffs.take(k), p, first) + coeffs[k]
            * fpow(p, (first + k) as nat),
{
    assert(coeffs.take(k + 1).drop_last() =~= coeffs.take(k));
}

/// The term that an event gives to `s(x, y)`: for a term of a linear
/// constraint the coefficient times `y^(n+q)` times the power of `x` of its
/// wire, where `q` constraints have been seen.
pub open spec fn event_term(event: EventView, x: nat, y: nat, n: nat, q: nat) -> int {
    match event {
        EventView::Coefficient(var, coeff) => coeff_int(coeff) * (fpow(y, n + q) * wire_power(
            var,
            x,
            n,
        )),
        _ => 0,
    }
}

/// The sum of the terms that a sequence of events gives, after `q`
/// constraints.
pub open spec fn linear_terms(events: Seq<EventView>, x: nat, y: nat, n: nat, q: nat) -> int
    decreases events.len(),
{
    if events.len() == 0 {
        0
    } else {
        linear_terms(events.drop_last(), x, y, n, q) + event_term(
            events.last(),
            x,
            y,
            n,
            q + constraint_count(events.drop_last()),
        )
    }
}

/// What the values of an evaluator by wires sum up to, as an integer.
pub open spec fn weight_by_wires(s: SxEvalView, x: nat) -> int {
    weighted(s.u, finv(x), 1) + weighted(s.v, x, 1) + weighted(s.w, x, s.n + 1)
}

/// What the values of an evaluator by powers sum up to, as an integer.
pub open spec fn weight_by_powers(s: SyEvalView, y: nat) -> int {
    weighted(s.positive, y, 1) + weighted(s.negative, finv(y), 1)
}

proof fn lemma_total_by_wires(s: SxEvalView, x: nat)
    ensures
        congruent(total(s, x) as int, weight_by_wires(s, x)),
        total(s, x) < modulus(),
{
    let after_u = power_sum(0, s.u, finv(x), 1);
    let after_v = power_sum(after_u, s.v, x, 1);
    lemma_power_sum(0, s.u, finv(x), 1);
    lemma_power_sum(after_u, s.v, x, 1);
    lemma_power_sum(after_v, s.w, x, s.n + 1);
    lemma_congruent_sum(
        after_u as int,
        weighted(s.u, finv(x), 1),
        weighted(s.v, x, 1),
        weighted(s.v, x, 1),
    );
    lemma_congruent_sum(
        after_v as int,
        weighted(s.u, finv(x), 1) + weighted(s.v, x, 1),
        weighted(s.w, x, s.n + 1),
        weighted(s.w, x, s.n + 1),
    );
}

proof fn lemma_total_by_powers(s: SyEvalView, y: nat)
    ensures
        congruent(s.total(y) as int, weight_by_powers(s, y)),
        s.total(y) < modulus(),
{
    let after_positive = power_sum(0, s.positive, y, 1);
    lemma_power_sum(0, s.positive, y, 1);
    lemma_power_sum(after_positive, s.negative, finv(y), 1);
    lemma_congruent_sum(
        after_positive as int,
        weighted(s.positive, y, 1),
        weighted(s.negative, finv(y), 1),
        weighted(s.negative, finv(y), 1),
    );
}

/// A term added to one wire adds the term's value to the sum.
proof fn lemma_wire_gains_term(
    wires: Seq<nat>,
    k: int,
    coeff: CoeffView,
    y_power: nat,
    p: nat,
    first: nat,
)
    requires
        0 <= k < wires.len(),
    ensures
        congruent(
            weighted(wires.update(k, add_term(wires[k], coeff, y_power)), p, first),
            weighted(wires, p, first) + coeff_int(coeff) * (y_power * fpow(
                p,
                (first + k) as nat,
            )),
        ),
{
    let gain = add_term(wires[k], coeff, y_power) - wires[k];
    let power = fpow(p, (first + k) as nat) as int;
    lemma_weighted_update(wires, k, add_term(wires[k], coeff, y_power), p, first);
    lemma_add_term(wires[k], coeff, y_power);
    lemma_congruent_product(gain, coeff_int(coeff) * y_power, power, power);
    assert((coeff_int(coeff) * y_power) * power == coeff_int(coeff) * (y_power * power))
        by (nonlinear_arith);
    let before = weighted(wires, p, first);
    lemma_congruent_sum(before, before, gain * power, coeff_int(coeff) * (y_power * power));
}

proof fn lemma_step_by_wires(s: SxEvalView, event: EventView, x: nat)
    requires
        sized(s),
        match event {
            EventView::Coefficient(var, _) => 1 <= var.spec_index() <= s.n,
            _ => true,
        },
    ensures
        congruent(
            weight_by_wires(after_event(s, event), x),
            weight_by_wires(s, x) + event_term(event, x, s.y, s.n, s.q),
        ),
{
    match event {
        EventView::Coefficient(var, coeff) => {
            let y_power = fpow(s.y, s.n + s.q);
            let wu = weighted(s.u, finv(x), 1);
            let wv = weighted(s.v, x, 1);
            let ww = weighted(s.w, x, s.n + 1);
            let term = event_term(event, x, s.y, s.n, s.q);
            match var {
                Variable::A(i) => {
                    lemma_wire_gains_term(s.u, i - 1, coeff, y_power, finv(x), 1);
                    lemma_congruent_sum(
                        weighted(after_event(s, event).u, finv(x), 1),
                        wu + term,
                        wv + ww,
                        wv + ww,
                    );
                },
                Variable::B(i) => {
                    lemma_wire_gains_term(s.v, i - 1, coeff, y_power, x, 1);
                    lemma_congruent_sum(
                        weighted(after_event(s, event).v, x, 1),
                        wv + term,
                        wu + ww,
                        wu + ww,
                    );
                },
                Variable::C(i) => {
                    lemma_wire_gains_term(s.w, i - 1, coeff, y_power, x, s.n + 1);
                    lemma_congruent_sum(
                        weighted(after_event(s, event).w, x, s.n + 1),
                        ww + term,
                        wu + wv,
                        wu + wv,
                    );
                },
            }
        },
        _ => {},
    }
}

proof fn lemma_run_by_wires(s: SxEvalView, events: Seq<EventView>, x: nat)
    requires
        sized(s),
        wires_in_range(events, s.n),
    ensures
        congruent(
            weight_by_wires(after_events(s, events), x),
            weight_by_wires(s, x) + linear_terms(events, x, s.y, s.n, s.q),
        ),
    decreases events.len(),
{
    if events.len() > 0 {
        let earlier = events.drop_last();
        assert(wires_in_range(earlier, s.n)) by {
            assert forall|i: int| 0 <= i < earlier.len() implies match #[trigger] earlier[i] {
                EventView::Coefficient(var, _) => 1 <= var.spec_index() <= s.n,
                _ => true,
            } by {
                assert(earlier[i] == events[i]);
            }
        }
        assert(events.last() == events[events.len() - 1]);
        lemma_run_by_wires(s, earlier, x);
        lemma_after_events(s, earlier);
        let before = after_events(s, earlier);
        lemma_step_by_wires(before, events.last(), x);
        let term = event_term(events.last(), x, s.y, s.n, s.q + constraint_count(earlier));
        lemma_congruent_sum(
            weight_by_wires(before, x),
            weight_by_wires(s, x) + linear_terms(earlier, x, s.y, s.n, s.q),
            term,
            term,
        );
    }
}

/// Whether an evaluator by powers has one coefficient for each power.
pub open spec fn shaped(s: SyEvalView) -> bool {
    s.negative.len() == s.n && s.positive.len() >= s.n
}

proof fn lemma_step_by_powers(s: SyEvalView, event: EventView, y: nat)
    requires
        shaped(s),
        s.accepts(event),
    ensures
        shaped(s.after_event(event)),
        s.after_event(event).x == s.x,
        s.after_event(event).n == s.n,
        s.after_event(event).positive.len() == s.positive.len(),
        s.after_event(event).q == s.q + if event is LinearConstraint {
            1nat
        } else {
            0nat
        },
        congruent(
            weight_by_powers(s.after_event(event), y),
            weight_by_powers(s, y) + event_term(event, s.x, y, s.n, s.q),
        ),
{
    match event {
        EventView::Coefficient(var, coeff) => {
            let at = s.n + s.q - 1;
            let x_power = wire_power(var, s.x, s.n);
            let times = coeff_times(coeff, x_power);
            let sum = fadd(s.positive[at], times);
            let y_power = fpow(y, s.n + s.q) as int;
            let gain = sum - s.positive[at];
            lemma_weighted_update(s.positive, at, sum, y, 1);
            lemma_fadd(s.positive[at], times);
            lemma_coeff_times(coeff, x_power);
            let p = s.positive[at] as int;
            lemma_congruent_sum(p, p, times as int, coeff_int(coeff) * x_power);
            lemma_congruent_difference(sum as int, p + coeff_int(coeff) * x_power, p, p);
            lemma_congruent_product(gain, coeff_int(coeff) * x_power, y_power, y_power);
            assert((coeff_int(coeff) * x_power) * y_power == coeff_int(coeff) * (y_power
                * x_power)) by (nonlinear_arith);
            let before = weight_by_powers(s, y);
            lemma_congruent_sum(
                before,
                before,
                gain * y_power,
                coeff_int(coeff) * (y_power * x_power),
            );
        },
        _ => {},
    }
}

proof fn lemma_run_by_powers(s: SyEvalView, events: Seq<EventView>, y: nat)
    requires
        shaped(s),
        wires_in_range(events, s.n),
        s.n + s.q + constraint_count(events) <= s.positive.len(),
    ensures
        shaped(s.after_events(events)),
        s.after_events(events).x == s.x,
        s.after_events(events).n == s.n,
        s.after_events(events).positive.len() == s.positive.len(),
        s.after_events(events).q == s.q + constraint_count(events),
        congruent(
            weight_by_powers(s.after_events(events), y),
            weight_by_powers(s, y) + linear_terms(events, s.x, y, s.n, s.q),
        ),
    decreases events.len(),
{
    if events.len() > 0 {
        let earlier = events.drop_last();
        assert(wires_in_range(earlier, s.n)) by {
            assert forall|i: int| 0 <= i < earlier.len() implies match #[trigger] earlier[i] {
                EventView::Coefficient(var, _) => 1 <= var.spec_index() <= s.n,
                _ => true,
            } by {
                assert(earlier[i] == events[i]);
            }
        }
        assert(events.last() == events[events.len() - 1]);
        lemma_run_by_powers(s, earlier, y);
        let before = s.after_events(earlier);
        lemma_step_by_powers(before, events.last(), y);
        let term = event_term(events.last(), s.x, y, s.n, s.q + constraint_count(earlier));
        lemma_congruent_sum(
            weight_by_powers(before, y),
            weight_by_powers(s, y) + linear_terms(earlier, s.x, y, s.n, s.q),
            term,
            term,
        );
    }
}

/// The values of an evaluator by wires before any event.
pub open spec fn initial_by_wires(y: nat, n: nat) -> SxEvalView {
    SxEvalView {
        y,
        n,
        q: 0,
        u: Seq::new(n, |i: int| 0nat),
        v: Seq::new(n, |i: int| 0nat),
        w: Seq::new(n, |i: int| gate_term((i + 1) as nat, y)),
    }
}

/// What the first `k` gates give to the two sums is the same.
proof fn lemma_gates_agree(x: nat, y: nat, n: nat, q: nat, k: int)
    requires
        0 <= k <= n,
    ensures
        congruent(
            weighted(initial_by_wires(y, n).w.take(k), x, n + 1),
            weighted(SyEvalView::initial(x, n, q).positive.take(k), y, 1) + weighted(
                SyEvalView::initial(x, n, q).negative.take(k),
                finv(y),
                1,
            ),
        ),
    decreases k,
{
    if k > 0 {
        let j = k - 1;
        let w = initial_by_wires(y, n).w;
        let positive = SyEvalView::initial(x, n, q).positive;
        let negative = SyEvalView::initial(x, n, q).negative;
        lemma_gates_agree(x, y, n, q, j);
        lemma_weighted_next(w, x, n + 1, j);
        lemma_weighted_next(positive, y, 1, j);
        lemma_weighted_next(negative, finv(y), 1, j);
        let up = fpow(y, (j + 1) as nat);
        let down = fpow(finv(y), (j + 1) as nat);
        let power = fpow(x, (n + j + 1) as nat);
        // summed by wires
        lemma_fneg(fadd(up, down));
        lemma_fadd(up, down);
        lemma_congruent_difference(0, 0, fadd(up, down) as int, (up + down) as int);
        lemma_congruent_product(w[j] as int, -(up + down), power as int, power as int);
        // summed by powers
        lemma_fneg(power);
        lemma_congruent_product(positive[j] as int, -(power as int), up as int, up as int);
        lemma_congruent_product(negative[j] as int, -(power as int), down as int, down as int);
        lemma_congruent_sum(
            (positive[j] * up) as int,
            (-(power as int)) * up,
            (negative[j] * down) as int,
            (-(power as int)) * down,
        );
        assert((-(up + down)) * power == (-(power as int)) * up + (-(power as int)) * down)
            by (nonlinear_arith);
        lemma_congruent_sum(
            weighted(w.take(j), x, n + 1),
            weighted(positive.take(j), y, 1) + weighted(negative.take(j), finv(y), 1),
            (w[j] * power) as int,
            (positive[j] * up + negative[j] * down) as int,
        );
    }
}

proof fn lemma_initial_weights_agree(x: nat, y: nat, n: nat, q: nat)
    ensures
        congruent(
            weight_by_wires(initial_by_wires(y, n), x),
            weight_by_powers(SyEvalView::initial(x, n, q), y),
        ),
{
    let by_wires = initial_by_wires(y, n);
    let by_powers = SyEvalView::initial(x, n, q);
    lemma_weighted_of_zeros(by_wires.u, finv(x), 1, 0);
    lemma_weighted_of_zeros(by_wires.v, x, 1, 0);
    assert(by_wires.u.take(0) =~= Seq::<nat>::empty());
    assert(by_wires.v.take(0) =~= Seq::<nat>::empty());
    lemma_weighted_of_zeros(by_powers.positive, y, 1, n as int);
    assert(by_wires.w.take(n as int) =~= by_wires.w);
    assert(by_powers.negative.take(n as int) =~= by_powers.negative);
    lemma_gates_agree(x, y, n, q, n as int);
}

/// What the first `count` gates of a circuit with `n` gates give to
/// `s(x, y)`: for gate `i` the term `-(y^i + y^-i) x^(i+n)`.
pub open spec fn gate_terms(x: nat, y: nat, n: nat, count: nat) -> int
    decreases count,
{
    if count == 0 {
        0
    } else {
        gate_terms(x, y, n, (count - 1) as nat) - (fpow(y, count) + fpow(finv(y), count)) * fpow(
            x,
            count + n,
        )
    }
}

proof fn lemma_gates_by_wires(x: nat, y: nat, n: nat, k: int)
    requires
        0 <= k <= n,
    ensures
        congruent(
            weighted(initial_by_wires(y, n).w.take(k), x, n + 1),
            gate_terms(x, y, n, k as nat),
        ),
    decreases k,
{
    if k > 0 {
        let j = k - 1;
        let w = initial_by_wires(y, n).w;
        lemma_gates_by_wires(x, y, n, j);
        lemma_weighted_next(w, x, n + 1, j);
        let up = fpow(y, k as nat);
        let down = fpow(finv(y), k as nat);
        let power = fpow(x, (k + n) as nat);
        lemma_fneg(fadd(up, down));
        lemma_fadd(up, down);
        lemma_congruent_difference(0, 0, fadd(up, down) as int, (up + down) as int);
        lemma_congruent_product(w[j] as int, -(up + down), power as int, power as int);
        assert((-(up + down)) * power == -((up + down) * power)) by (nonlinear_arith);
        lemma_congruent_sum(
            weighted(w.take(j), x, n + 1),
            gate_terms(x, y, n, j as nat),
            (w[j] * power) as int,
            -((up + down) * power),
        );
    }
}

/// `s(x, y)` is the sum of its terms: what the wires hold, summed in the
/// order of the evaluator, is as a field element the sum over all gates and
/// over all terms of all linear constraints.
pub proof fn lemma_s_is_the_sum_of_its_terms(events: Seq<EventView>, n: nat, x: nat, y: nat)
    requires
        n <= usize::MAX,
        wires_in_range(events, n),
    ensures
        congruent(
            s_value(events, n, x, y) as int,
            gate_terms(x, y, n, n) + linear_terms(events, x, y, n, 0),
        ),
        s_value(events, n, x, y) < modulus(),
{
    let start = initial_by_wires(y, n);
    let end = after_events(start, events);
    lemma_after_events(start, events);
    assert(end.u =~= u_values(events, n, y));
    assert(end.v =~= v_values(events, n, y));
    assert(end.w =~= w_values(events, n, y));
    lemma_total_by_wires(end, x);
    lemma_run_by_wires(start, events, x);
    lemma_weighted_of_zeros(start.u, finv(x), 1, 0);
    lemma_weighted_of_zeros(start.v, x, 1, 0);
    assert(start.u.take(0) =~= Seq::<nat>::empty());
    assert(start.v.take(0) =~= Seq::<nat>::empty());
    assert(start.w.take(n as int) =~= start.w);
    lemma_gates_by_wires(x, y, n, n as int);
    let terms = linear_terms(events, x, y, n, 0);
    lemma_congruent_sum(weight_by_wires(start, x), gate_terms(x, y, n, n), terms, terms);
}

/// The two evaluators agree: summed by the wires or by the powers of `Y`,
/// `s(x, y)` is the same field element, for every circuit whose constraints
/// name only wires of its `n` gates and that has no more than `q` linear
/// constraints.
pub proof fn lemma_evaluators_agree(events: Seq<EventView>, n: nat, q: nat, x: nat, y: nat)
    requires
        n <= usize::MAX,
        wires_in_range(events, n),
        constraint_count(events) <= q,
    ensures
        s_value_by_y(events, n, q, x, y) == s_value(events, n, x, y),
{
    let by_wires = initial_by_wires(y, n);
    let by_powers = SyEvalView::initial(x, n, q);
    let end_by_wires = after_events(by_wires, events);
    let end_by_powers = by_powers.after_events(events);

    // the value by wires is the total of the evaluator by wires
    lemma_after_events(by_wires, events);
    assert(end_by_wires.u =~= u_values(events, n, y));
    assert(end_by_wires.v =~= v_values(events, n, y));
    assert(end_by_wires.w =~= w_values(events, n, y));
    assert(s_value(events, n, x, y) == total(end_by_wires, x));

    // both totals are the gates' terms and the constraints' terms
    lemma_total_by_wires(end_by_wires, x);
    lemma_run_by_wires(by_wires, events, x);
    lemma_total_by_powers(end_by_powers, y);
    lemma_run_by_powers(by_powers, events, y);
    lemma_initial_weights_agree(x, y, n, q);
    let terms = linear_terms(events, x, y, n, 0);
    lemma_congruent_sum(
        weight_by_wires(by_wires, x),
        weight_by_powers(by_powers, y),
        terms,
        terms,
    );
    lemma_same_element(total(end_by_wires, x), end_by_powers.total(y));
}

} // verus!
