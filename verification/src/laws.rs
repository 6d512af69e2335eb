//! What holds of the engine for all inputs, proved from the models that the
//! contracts of the executable functions are stated over.

use vstd::arithmetic::power::{lemma_pow0, pow};
use vstd::prelude::*;
use crate::controller::{step_for, STEP_NUMERATOR};
use crate::measure::{lemma_peak_is_maximum, peak, total};
use crate::monitor::{
    accelerate, accelerated, boosts_due, pass_model, relaxed, relaxed_cell, trigger_count,
    PassModel, PolicyModel,
};
use crate::mover::drift;
use crate::particles::ParticleModel;
use crate::waves::{decay_factor, evolve, AlfvenModel};
use crate::fixed::{
    lemma_quotient_remainder, lemma_zero_stays_zero, product, quotient, representable, SCALE,
};
use crate::simulation::{run_model, step_model, RunModel};
use crate::solver::{advanced, cell_after, denominator, is_interior, stencil};

verus! {

/// A step leaves the number of cells and the number of particles as they
/// were, and so does a whole run, however many steps it takes.
pub proof fn law_sizes_are_invariant(m: RunModel, budget: nat)
    ensures
        step_model(m) is Some ==> step_model(m)->0.grid.len() == m.grid.len(),
        step_model(m) is Some ==> step_model(m)->0.particles.len() == m.particles.len(),
        run_model(m, budget).state.grid.len() == m.grid.len(),
        run_model(m, budget).state.particles.len() == m.particles.len(),
    decreases budget,
{
    if m.elapsed < m.total_time && budget > 0 && step_model(m) is Some {
        law_sizes_are_invariant(step_model(m)->0, (budget - 1) as nat);
    }
}

/// The count of reconnection events never goes down: not in a step, not in a
/// run, and a run that is allowed more steps counts at least as many events.
pub proof fn law_events_never_decrease(m: RunModel, fewer: nat, more: nat)
    requires
        fewer <= more,
    ensures
        step_model(m) is Some ==> step_model(m)->0.events >= m.events,
        run_model(m, fewer).state.events >= m.events,
        run_model(m, more).state.events >= run_model(m, fewer).state.events,
    decreases more,
{
    if m.elapsed < m.total_time && more > 0 && step_model(m) is Some {
        let n = step_model(m)->0;
        if fewer > 0 {
            law_events_never_decrease(n, (fewer - 1) as nat, (more - 1) as nat);
        } else {
            law_events_never_decrease(n, 0, (more - 1) as nat);
            assert(run_model(n, 0).state.events == n.events);
        }
    }
}

/// True when the solver can divide by `12 dt^2`: the divisor fits and is not
/// zero.
pub open spec fn solver_ready(dt: int) -> bool {
    representable(denominator(dt)) && denominator(dt) != 0
}

/// A field that vanishes everywhere is a fixed point of the solver: whatever
/// the step, as long as the solver can divide by `12 dt^2`, every cell stays
/// at exactly zero.
pub proof fn law_zero_field_is_fixed_point(cells: nat, dt: int)
    requires
        solver_ready(dt),
    ensures
        advanced(Seq::new(cells, |i: int| 0int), dt) == Some(Seq::new(cells, |i: int| 0int)),
{
    let s = Seq::new(cells, |i: int| 0int);
    assert forall|i: int| is_interior(s.len(), i) implies cell_after(s, i, dt) == Some(0int) by {
        assert(stencil(s, i) == 0);
        lemma_zero_stays_zero(denominator(dt));
        lemma_zero_stays_zero(dt);
    }
    assert(advanced(s, dt) is Some);
    assert(advanced(s, dt)->0 =~= s);
}

/// The field after the solver has run once for each step of `steps`, in
/// order; `None` when one of the runs fails.
pub open spec fn advanced_through(s: Seq<int>, steps: Seq<int>) -> Option<Seq<int>>
    decreases steps.len(),
{
    if steps.len() == 0 {
        Some(s)
    } else {
        match advanced_through(s, steps.drop_last()) {
            Some(t) => advanced(t, steps.last()),
            None => None,
        }
    }
}

/// A field that vanishes everywhere stays at exactly zero through any
/// sequence of solver steps that the solver can divide by.
pub proof fn law_zero_field_stays_zero(cells: nat, steps: Seq<int>)
    requires
        forall|k: int| 0 <= k < steps.len() ==> solver_ready(#[trigger] steps[k]),
    ensures
        advanced_through(Seq::new(cells, |i: int| 0int), steps) == Some(
            Seq::new(cells, |i: int| 0int),
        ),
    decreases steps.len(),
{
    if steps.len() > 0 {
        let front = steps.drop_last();
        assert forall|k: int| 0 <= k < front.len() implies solver_ready(#[trigger] front[k]) by {
            assert(front[k] == steps[k]);
        }
        law_zero_field_stays_zero(cells, front);
        assert(solver_ready(steps[steps.len() - 1]));
        law_zero_field_is_fixed_point(cells, steps.last());
    }
}

/// The adaptive step never grows with the field: of two grids, the one whose
/// strongest cell is stronger gets a step that is no larger. The step is
/// strictly smaller whenever the exact steps `0.01 / (1 + max)` of the two
/// differ by at least one billionth.
pub proof fn law_step_shrinks_as_field_grows(weaker: int, stronger: int)
    requires
        -SCALE < weaker < stronger,
    ensures
        step_for(stronger) <= step_for(weaker),
        STEP_NUMERATOR * SCALE * (stronger - weaker) >= (SCALE + weaker) * (SCALE + stronger)
            ==> step_for(stronger) < step_for(weaker),
{
    let n = STEP_NUMERATOR * SCALE;
    let d1 = SCALE + weaker;
    let d2 = SCALE + stronger;
    lemma_quotient_remainder(n, d1);
    lemma_quotient_remainder(n, d2);
    let q1 = quotient(n, d1);
    let q2 = quotient(n, d2);
    assert(n >= 0) by (nonlinear_arith)
        requires
            n == STEP_NUMERATOR * SCALE,
    ;
    assert(q2 <= q1) by (nonlinear_arith)
        requires
            0 < d1 < d2,
            q1 >= 0,
            q2 >= 0,
            0 <= n - d1 * q1 < d1,
            0 <= n - d2 * q2 < d2,
    ;
    if n * (stronger - weaker) >= d1 * d2 {
        assert(q2 < q1) by (nonlinear_arith)
            requires
                0 < d1 < d2,
                q1 >= 0,
                q2 >= 0,
                0 <= n - d1 * q1 < d1,
                0 <= n - d2 * q2 < d2,
                n * (d2 - d1) >= d1 * d2,
        ;
    }
}

/// No cell over the threshold means no event and no response: a pass of the
/// monitor over a grid whose strongest cell is at or below the threshold
/// counts nothing and leaves the grid and the particles exactly as they were.
pub proof fn law_quiet_grid_triggers_nothing(
    s: Seq<int>,
    ps: Seq<ParticleModel>,
    events: nat,
    policy: PolicyModel,
)
    requires
        s.len() > 0,
        peak(s) <= policy.threshold,
        events <= u64::MAX,
    ensures
        trigger_count(s, policy.threshold) == 0,
        pass_model(s, ps, events, policy) == Some(PassModel { grid: s, particles: ps, events }),
{
    lemma_peak_is_maximum(s);
    lemma_no_cell_over(s, policy.threshold);
    assert forall|i: int| 0 <= i < s.len() implies relaxed_cell(
        #[trigger] s[i],
        policy.threshold,
        policy.relaxation,
    ) == Some(s[i]) by {}
    assert(relaxed(s, policy.threshold, policy.relaxation)->0 =~= s);
    assert forall|i: int| 0 <= i < ps.len() implies accelerate(#[trigger] ps[i], s, policy)
        == Some(ps[i]) by {
        assert(boosts_due(ps[i], s, policy) == 0);
    }
    assert(accelerated(ps, s, policy)->0 =~= ps);
}

/// A grid without a cell over the threshold has a trigger count of zero.
pub proof fn lemma_no_cell_over(s: Seq<int>, threshold: int)
    requires
        forall|i: int| 0 <= i < s.len() ==> s[i] <= threshold,
    ensures
        trigger_count(s, threshold) == 0,
    decreases s.len(),
{
    if s.len() > 0 {
        let front = s.drop_last();
        assert forall|i: int| 0 <= i < front.len() implies front[i] <= threshold by {
            assert(front[i] == s[i]);
        }
        lemma_no_cell_over(front, threshold);
        assert(s.last() == s[s.len() - 1]);
    }
}

/// True when every cell holds a value of the carrier.
pub open spec fn all_representable(s: Seq<int>) -> bool {
    forall|i: int| 0 <= i < s.len() ==> representable(#[trigger] s[i])
}

/// With the threshold at the largest strength a cell can hold, the count of
/// reconnection events stays where it was for the whole run, however many
/// steps the run takes.
pub proof fn law_unreachable_threshold_counts_nothing(m: RunModel, budget: nat)
    requires
        all_representable(m.grid),
        m.policy.threshold >= i64::MAX,
    ensures
        run_model(m, budget).state.events == m.events,
    decreases budget,
{
    if m.elapsed < m.total_time && budget > 0 && step_model(m) is Some {
        let n = step_model(m)->0;
        lemma_step_keeps_cells_in_range(m);
        law_unreachable_threshold_counts_nothing(n, (budget - 1) as nat);
    }
}

/// A step from a grid of carrier values, under a threshold that no carrier
/// value exceeds, ends on a grid of carrier values and counts no event.
pub proof fn lemma_step_keeps_cells_in_range(m: RunModel)
    requires
        all_representable(m.grid),
        m.policy.threshold >= i64::MAX,
        step_model(m) is Some,
    ensures
        all_representable(step_model(m)->0.grid),
        step_model(m)->0.events == m.events,
        step_model(m)->0.policy == m.policy,
{
    let solved = crate::solver::advanced(m.grid, m.step)->0;
    assert(all_representable(solved));
    let field = crate::simulation::field_after(m)->0;
    assert(all_representable(field)) by {
        if m.waves is Some {
            assert forall|i: int| 0 <= i < field.len() implies representable(
                #[trigger] field[i],
            ) by {
                assert(representable(solved[i] + crate::waves::forcing(m.step)));
            }
        }
    }
    lemma_no_cell_over(field, m.policy.threshold);
    let after = relaxed(field, m.policy.threshold, m.policy.relaxation)->0;
    assert(after =~= field);
}

/// A particle after the mover has run once for each step of `steps`, in
/// order; `None` when one of the moves fails.
pub open spec fn drifted_through(p: ParticleModel, steps: Seq<int>) -> Option<ParticleModel>
    decreases steps.len(),
{
    if steps.len() == 0 {
        Some(p)
    } else {
        match drifted_through(p, steps.drop_last()) {
            Some(q) => drift(q, steps.last()),
            None => None,
        }
    }
}

/// The mover is linear up to rounding: after any sequence of steps that sum
/// to `t`, a particle of velocity `v` has kept its velocity and stands at
/// `position + v t` to within one billionth per step taken. In raw counts,
/// the distance covered times `SCALE` differs from `v` times the sum of the
/// steps by less than `SCALE` for every step.
pub proof fn law_mover_is_linear(p: ParticleModel, steps: Seq<int>)
    requires
        drifted_through(p, steps) is Some,
    ensures
        drifted_through(p, steps)->0.velocity == p.velocity,
        (drifted_through(p, steps)->0.position - p.position) * SCALE - p.velocity * total(steps)
            <= steps.len() * (SCALE - 1),
        (drifted_through(p, steps)->0.position - p.position) * SCALE - p.velocity * total(steps)
            >= -(steps.len() * (SCALE - 1)),
    decreases steps.len(),
{
    if steps.len() > 0 {
        let front = steps.drop_last();
        let dt = steps.last();
        law_mover_is_linear(p, front);
        let q = drifted_through(p, front)->0;
        let r = drifted_through(p, steps)->0;
        let v = p.velocity;
        let shift = product(v, dt);
        assert(r.position == q.position + shift);
        lemma_quotient_remainder(v * dt, SCALE as int);
        let covered = (r.position - p.position) * SCALE;
        let before = (q.position - p.position) * SCALE;
        assert(covered == before + shift * SCALE) by (nonlinear_arith)
            requires
                covered == (r.position - p.position) * SCALE,
                before == (q.position - p.position) * SCALE,
                r.position == q.position + shift,
        ;
        assert(v * total(steps) == v * total(front) + v * dt) by (nonlinear_arith)
            requires
                total(steps) == total(front) + dt,
        ;
        assert(steps.len() * (SCALE - 1) == front.len() * (SCALE - 1) + (SCALE - 1))
            by (nonlinear_arith)
            requires
                steps.len() == front.len() + 1,
        ;
        assert(SCALE * shift == shift * SCALE) by (nonlinear_arith);
    } else {
        assert(0 * (SCALE - 1) == 0);
        assert(p.velocity * 0 == 0) by (nonlinear_arith);
    }
}

/// An Alfvén wave after `count` steps of the same size `dt`; `None` when one
/// of the steps fails.
pub open spec fn evolved_through(w: AlfvenModel, dt: int, count: nat) -> Option<AlfvenModel>
    decreases count,
{
    if count == 0 {
        Some(w)
    } else {
        match evolved_through(w, dt, (count - 1) as nat) {
            Some(u) => evolve(u, dt),
            None => None,
        }
    }
}

/// At the step 0.01 the factor `1 - 0.1 dt` is exactly 0.999.
pub proof fn law_decay_factor_at_a_hundredth()
    ensures
        decay_factor(10_000_000) == 999_000_000,
{
    assert(crate::waves::DECAY_RATE * 10_000_000 == 1_000_000_000_000_000) by (nonlinear_arith);
    assert(1_000_000_000_000_000int / 1_000_000_000int == 1_000_000);
}

/// The amplitude of an Alfvén wave decays geometrically up to rounding:
/// after `count` steps of the same size, with the factor `f = 1 - 0.1 dt`
/// between zero and one, the amplitude is the initial amplitude times `f` to
/// the power `count`, to within one billionth per step taken. In raw counts,
/// the amplitude times `SCALE^count` differs from the initial amplitude times
/// the raw factor to the power `count` by at most `count * SCALE^count`.
pub proof fn law_amplitude_decays_geometrically(w: AlfvenModel, dt: int, count: nat)
    requires
        0 <= decay_factor(dt) <= SCALE,
        evolved_through(w, dt, count) is Some,
    ensures
        evolved_through(w, dt, count)->0.amplitude * pow(SCALE as int, count) - w.amplitude * pow(
            decay_factor(dt),
            count,
        ) <= count * pow(SCALE as int, count),
        evolved_through(w, dt, count)->0.amplitude * pow(SCALE as int, count) - w.amplitude * pow(
            decay_factor(dt),
            count,
        ) >= -(count * pow(SCALE as int, count)),
        pow(SCALE as int, count) > 0,
    decreases count,
{
    let scale = SCALE as int;
    let f = decay_factor(dt);
    if count == 0 {
        lemma_pow0(scale);
        lemma_pow0(f);
    } else {
        let k = (count - 1) as nat;
        law_amplitude_decays_geometrically(w, dt, k);
        let a = evolved_through(w, dt, k)->0.amplitude;
        let b = evolved_through(w, dt, count)->0.amplitude;
        let a0 = w.amplitude;
        assert(b == product(a, f));
        lemma_quotient_remainder(a * f, scale);
        let d = b * scale - a * f;
        assert(-scale < d < scale) by (nonlinear_arith)
            requires
                d == b * scale - a * f,
                a * f >= 0 ==> 0 <= a * f - scale * b < scale,
                a * f <= 0 ==> -scale < a * f - scale * b <= 0,
        ;
        let sk = pow(scale, k);
        let fk = pow(f, k);
        assert(pow(scale, count) == scale * sk) by {
            reveal(pow);
        }
        assert(pow(f, count) == f * fk) by {
            reveal(pow);
        }
        let e = a * sk - a0 * fk;
        assert(b * (scale * sk) == (b * scale) * sk) by (nonlinear_arith);
        assert(a0 * (f * fk) == f * (a0 * fk)) by (nonlinear_arith);
        assert((a * f) * sk == f * (a * sk)) by (nonlinear_arith);
        assert(d * sk == (b * scale) * sk - (a * f) * sk) by (nonlinear_arith)
            requires
                d == b * scale - a * f,
        ;
        assert(f * e == f * (a * sk) - f * (a0 * fk)) by (nonlinear_arith)
            requires
                e == a * sk - a0 * fk,
        ;
        assert(b * (scale * sk) - a0 * (f * fk) == d * sk + f * e);
        assert(d * sk + f * e <= count * (scale * sk) && d * sk + f * e >= -(count * (scale * sk))
            && scale * sk > 0) by (nonlinear_arith)
            requires
                -scale < d < scale,
                sk > 0,
                0 <= f <= scale,
                scale > 0,
                e <= k * sk,
                e >= -(k * sk),
                count == k + 1,
        ;
    }
}

} // verus!
