//! The reconnection monitor: it counts the cells whose field is over the
//! threshold, relaxes each of them once, and speeds the particles up.
//!
//! A pass over the grid has two parts. Detection counts one event for every
//! cell over the threshold. The response then takes the relaxation amount off
//! each such cell and multiplies velocities by the boost factor, once for
//! every triggering cell that the coupling ties a particle to.

use vstd::prelude::*;
use crate::error::EngineError;
use crate::fixed::{product, representable, Fixed, SCALE};
use crate::grid::FieldGrid;
use crate::particles::{Particle, ParticleModel, ParticleSet};

verus! {

/// Raw default threshold: one and a half.
pub const DEFAULT_THRESHOLD: i64 = 1_500_000_000;

/// Raw default relaxation amount: a half.
pub const DEFAULT_RELAXATION: i64 = 500_000_000;

/// Raw default boost factor: one and a tenth.
pub const DEFAULT_BOOST: i64 = 1_100_000_000;

/// Which particles a triggering cell accelerates.
#[derive(Clone, Copy, Debug, PartialEq, Eq, Structural)]
pub enum Coupling {
    /// Every triggering cell accelerates every particle.
    Global,
    /// A triggering cell accelerates the particles that are inside it.
    Local,
}

/// The rule the monitor applies.
#[derive(Clone, Copy, Debug, PartialEq, Eq, Structural)]
pub struct ReconnectionPolicy {
    /// A cell triggers when its strength is greater than this.
    pub threshold: Fixed,
    /// What a triggering cell loses.
    pub relaxation: Fixed,
    /// The factor by which a velocity grows per triggering cell.
    pub boost: Fixed,
    /// Which particles a triggering cell reaches.
    pub coupling: Coupling,
}

/// A policy as raw counts.
pub struct PolicyModel {
    pub threshold: int,
    pub relaxation: int,
    pub boost: int,
    pub coupling: Coupling,
}

impl View for ReconnectionPolicy {
    type V = PolicyModel;

    open spec fn view(&self) -> PolicyModel {
        PolicyModel {
            threshold: self.threshold@,
            relaxation: self.relaxation@,
            boost: self.boost@,
            coupling: self.coupling,
        }
    }
}

/// Threshold 1.5, relaxation 0.5, boost 1.1, global coupling.
pub open spec fn standard_policy() -> ReconnectionPolicy {
    ReconnectionPolicy {
        threshold: Fixed { raw: DEFAULT_THRESHOLD },
        relaxation: Fixed { raw: DEFAULT_RELAXATION },
        boost: Fixed { raw: DEFAULT_BOOST },
        coupling: Coupling::Global,
    }
}

impl ReconnectionPolicy {
    /// The standard policy: threshold 1.5, relaxation 0.5, boost 1.1, global
    /// coupling.
    pub fn standard() -> (p: ReconnectionPolicy)
        ensures
            p == standard_policy(),
    {
        ReconnectionPolicy {
            threshold: Fixed { raw: DEFAULT_THRESHOLD },
            relaxation: Fixed { raw: DEFAULT_RELAXATION },
            boost: Fixed { raw: DEFAULT_BOOST },
            coupling: Coupling::Global,
        }
    }
}

/// The number of cells whose strength is greater than `threshold`.
pub open spec fn trigger_count(s: Seq<int>, threshold: int) -> nat
    decreases s.len(),
{
    if s.len() == 0 {
        0
    } else if s.last() > threshold {
        trigger_count(s.drop_last(), threshold) + 1
    } else {
        trigger_count(s.drop_last(), threshold)
    }
}

/// A cell after the response: a triggering cell loses `relaxation`, and has
/// no value when the difference does not fit; any other cell is kept.
pub open spec fn relaxed_cell(x: int, threshold: int, relaxation: int) -> Option<int> {
    if x > threshold {
        if representable(x - relaxation) {
            Some(x - relaxation)
        } else {
            None
        }
    } else {
        Some(x)
    }
}

/// The grid after the response, or `None` when some cell has no value.
pub open spec fn relaxed(s: Seq<int>, threshold: int, relaxation: int) -> Option<Seq<int>> {
    if forall|i: int| 0 <= i < s.len() ==> relaxed_cell(#[trigger] s[i], threshold, relaxation)
        is Some {
        Some(Seq::new(s.len(), |i: int| relaxed_cell(s[i], threshold, relaxation)->0))
    } else {
        None
    }
}

/// A velocity multiplied `times` times by `boost`, rounded after each
/// multiplication; `None` when one of the products does not fit.
pub open spec fn boosted(v: int, boost: int, times: nat) -> Option<int>
    decreases times,
{
    if times == 0 {
        Some(v)
    } else {
        match boosted(v, boost, (times - 1) as nat) {
            Some(u) => if representable(product(u, boost)) {
                Some(product(u, boost))
            } else {
                None
            },
            None => None,
        }
    }
}

/// The cell a position lies in: cell `i` spans the positions from `i` up to,
/// not including, `i + 1`.
pub open spec fn home_cell(position: int) -> int {
    position / (SCALE as int)
}

/// How many times the response boosts a particle.
pub open spec fn boosts_due(p: ParticleModel, s: Seq<int>, policy: PolicyModel) -> nat {
    match policy.coupling {
        Coupling::Global => trigger_count(s, policy.threshold),
        Coupling::Local => if 0 <= home_cell(p.position) < s.len() && s[home_cell(p.position)]
            > policy.threshold {
            1
        } else {
            0
        },
    }
}

/// A particle after the response, or `None` when its velocity does not fit.
pub open spec fn accelerate(p: ParticleModel, s: Seq<int>, policy: PolicyModel) -> Option<
    ParticleModel,
> {
    match boosted(p.velocity, policy.boost, boosts_due(p, s, policy)) {
        Some(v) => Some(ParticleModel { velocity: v, ..p }),
        None => None,
    }
}

/// The particles after the response, or `None` when one of them has no
/// velocity.
pub open spec fn accelerated(ps: Seq<ParticleModel>, s: Seq<int>, policy: PolicyModel) -> Option<
    Seq<ParticleModel>,
> {
    if forall|i: int| 0 <= i < ps.len() ==> accelerate(#[trigger] ps[i], s, policy) is Some {
        Some(Seq::new(ps.len(), |i: int| accelerate(ps[i], s, policy)->0))
    } else {
        None
    }
}

/// What one pass of the monitor leaves behind.
pub struct PassModel {
    pub grid: Seq<int>,
    pub particles: Seq<ParticleModel>,
    pub events: nat,
}

/// One pass of the monitor over the grid `s`: the event counter grows by the
/// number of triggering cells, the grid is relaxed and the particles are
/// accelerated. `None` when the counter would leave 64 bits or a value does
/// not fit.
pub open spec fn pass_model(
    s: Seq<int>,
    ps: Seq<ParticleModel>,
    events: nat,
    policy: PolicyModel,
) -> Option<PassModel> {
    if events + trigger_count(s, policy.threshold) <= u64::MAX && relaxed(
        s,
        policy.threshold,
        policy.relaxation,
    ) is Some && accelerated(ps, s, policy) is Some {
        Some(
            PassModel {
                grid: relaxed(s, policy.threshold, policy.relaxation)->0,
                particles: accelerated(ps, s, policy)->0,
                events: events + trigger_count(s, policy.threshold),
            },
        )
    } else {
        None
    }
}

/// Once a velocity has left the carrier, further boosts do not bring it back.
pub proof fn lemma_boost_failure_persists(v: int, boost: int, failed: nat, times: nat)
    requires
        failed <= times,
        boosted(v, boost, failed) is None,
    ensures
        boosted(v, boost, times) is None,
    decreases times,
{
    if failed < times {
        lemma_boost_failure_persists(v, boost, failed, (times - 1) as nat);
    }
}

/// Detection: counts the cells over the threshold.
pub fn detect(grid: &FieldGrid, threshold: Fixed) -> (count: usize)
    ensures
        count == trigger_count(grid@, threshold@),
{
    let cells = grid.len();
    let mut count: usize = 0;
    let mut i: usize = 0;
    while i < cells
        invariant
            cells == grid@.len(),
            i <= cells,
            count == trigger_count(grid@.take(i as int), threshold@),
            count <= i,
        decreases cells - i,
    {
        proof {
            assert(grid@.take(i + 1).drop_last() =~= grid@.take(i as int));
        }
        if grid.cell(i).raw > threshold.raw {
            count = count + 1;
        }
        i = i + 1;
    }
    proof {
        assert(grid@.take(cells as int) =~= grid@);
    }
    count
}

/// The field part of the response: every triggering cell loses the
/// relaxation amount, once.
pub fn relax(grid: &FieldGrid, policy: &ReconnectionPolicy) -> (r: Result<FieldGrid, EngineError>)
    requires
        grid.wf(),
    ensures
        match r {
            Ok(g) => {
                &&& g.wf()
                &&& relaxed(grid@, policy@.threshold, policy@.relaxation) == Some(g@)
                &&& g@.len() == grid@.len()
                &&& g.directions() == grid.directions()
            },
            Err(e) => e == EngineError::NumericalDegeneracy && relaxed(
                grid@,
                policy@.threshold,
                policy@.relaxation,
            ) is None,
        },
{
    let cells = grid.len();
    let mut next: Vec<Fixed> = Vec::new();
    let mut i: usize = 0;
    while i < cells
        invariant
            cells == grid@.len(),
            i <= cells,
            next@.len() == i,
            forall|j: int|
                0 <= j < i ==> relaxed_cell(
                    #[trigger] grid@[j],
                    policy@.threshold,
                    policy@.relaxation,
                ) == Some(next@[j]@),
        decreases cells - i,
    {
        let here = grid.cell(i);
        if here.raw > policy.threshold.raw {
            match here.checked_sub(policy.relaxation) {
                Some(v) => {
                    next.push(v);
                },
                None => {
                    assert(relaxed_cell(grid@[i as int], policy@.threshold, policy@.relaxation)
                        is None);
                    return Err(EngineError::NumericalDegeneracy);
                },
            }
        } else {
            next.push(here);
        }
        i = i + 1;
    }
    let g = grid.replaced(next);
    assert(relaxed(grid@, policy@.threshold, policy@.relaxation) is Some);
    assert(g@ =~= relaxed(grid@, policy@.threshold, policy@.relaxation)->0);
    Ok(g)
}

/// Multiplies a velocity `times` times by `boost`.
pub fn boost_velocity(v: Fixed, boost: Fixed, times: usize) -> (r: Result<Fixed, EngineError>)
    ensures
        match r {
            Ok(w) => boosted(v@, boost@, times as nat) == Some(w@),
            Err(e) => e == EngineError::NumericalDegeneracy && boosted(v@, boost@, times as nat)
                is None,
        },
{
    let mut current = v;
    let mut done: usize = 0;
    while done < times
        invariant
            done <= times,
            boosted(v@, boost@, done as nat) == Some(current@),
        decreases times - done,
    {
        match current.checked_mul(boost) {
            Some(w) => {
                current = w;
            },
            None => {
                proof {
                    assert(boosted(v@, boost@, (done + 1) as nat) is None);
                    lemma_boost_failure_persists(v@, boost@, (done + 1) as nat, times as nat);
                }
                return Err(EngineError::NumericalDegeneracy);
            },
        }
        done = done + 1;
    }
    Ok(current)
}

/// How many boosts the response owes a particle, given the count of
/// triggering cells.
fn boosts_for(p: Particle, grid: &FieldGrid, policy: &ReconnectionPolicy, triggers: usize) -> (n:
    usize)
    requires
        triggers == trigger_count(grid@, policy@.threshold),
    ensures
        n == boosts_due(p@, grid@, policy@),
{
    match policy.coupling {
        Coupling::Global => triggers,
        Coupling::Local => {
            if p.position.raw < 0 {
                return 0;
            }
            let cell = p.position.raw / SCALE;
            if (cell as u64) < (grid.len() as u64) {
                if grid.cell(cell as usize).raw > policy.threshold.raw {
                    1
                } else {
                    0
                }
            } else {
                0
            }
        },
    }
}

/// The particle part of the response: every particle's velocity is boosted
/// once for each triggering cell that reaches it.
pub fn accelerate_all(particles: &ParticleSet, grid: &FieldGrid, policy: &ReconnectionPolicy) -> (r:
    Result<ParticleSet, EngineError>)
    ensures
        match r {
            Ok(q) => accelerated(particles@, grid@, policy@) == Some(q@) && q@.len()
                == particles@.len(),
            Err(e) => e == EngineError::NumericalDegeneracy && accelerated(
                particles@,
                grid@,
                policy@,
            ) is None,
        },
{
    let triggers = detect(grid, policy.threshold);
    let count = particles.len();
    let mut next: Vec<Particle> = Vec::new();
    let mut i: usize = 0;
    while i < count
        invariant
            count == particles@.len(),
            i <= count,
            next@.len() == i,
            triggers == trigger_count(grid@, policy@.threshold),
            forall|j: int|
                0 <= j < i ==> accelerate(#[trigger] particles@[j], grid@, policy@) == Some(
                    next@[j]@,
                ),
        decreases count - i,
    {
        let p = particles.particle(i);
        let due = boosts_for(p, grid, policy, triggers);
        match boost_velocity(p.velocity, policy.boost, due) {
            Ok(v) => {
                next.push(
                    Particle {
                        position: p.position,
                        velocity: v,
                        mass: p.mass,
                        charge: p.charge,
                        radius: p.radius,
                        spin: p.spin,
                    },
                );
            },
            Err(e) => {
                assert(accelerate(particles@[i as int], grid@, policy@) is None);
                return Err(e);
            },
        }
        i = i + 1;
    }
    let q = ParticleSet::from_vec(next);
    assert(accelerated(particles@, grid@, policy@) is Some);
    assert(q@ =~= accelerated(particles@, grid@, policy@)->0);
    Ok(q)
}

/// One pass of the monitor: detection, then the response.
///
/// Returns the relaxed grid, the accelerated particles and the new event
/// count, which is `events` plus the number of triggering cells. The pass
/// fails, and returns nothing, exactly when the count would leave 64 bits, a
/// relaxed strength does not fit, or a boosted velocity does not fit.
pub fn pass(grid: &FieldGrid, particles: &ParticleSet, events: u64, policy: &ReconnectionPolicy) -> (r:
    Result<(FieldGrid, ParticleSet, u64), EngineError>)
    requires
        grid.wf(),
    ensures
        match r {
            Ok((g, q, n)) => {
                &&& g.wf()
                &&& pass_model(grid@, particles@, events as nat, policy@) == Some(
                    PassModel { grid: g@, particles: q@, events: n as nat },
                )
                &&& g@.len() == grid@.len()
                &&& g.directions() == grid.directions()
                &&& q@.len() == particles@.len()
                &&& n >= events
            },
            Err(e) => e == EngineError::NumericalDegeneracy && pass_model(
                grid@,
                particles@,
                events as nat,
                policy@,
            ) is None,
        },
{
    let triggers = detect(grid, policy.threshold);
    if triggers as u64 > u64::MAX - events {
        return Err(EngineError::NumericalDegeneracy);
    }
    let total = events + triggers as u64;
    let g = relax(grid, policy)?;
    let q = accelerate_all(particles, grid, policy)?;
    Ok((g, q, total))
}

} // verus!
