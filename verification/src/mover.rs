//! The particle mover: every particle drifts by its velocity times the step.
//!
//! No force acts on a particle and nothing happens at the ends of the grid: a
//! position may leave the cells. A force law would change velocities before
//! this drift; none is part of the engine.

use vstd::prelude::*;
use crate::error::{settle, EngineError};
use crate::fixed::{product, representable, Fixed};
use crate::particles::{Particle, ParticleModel, ParticleSet};

verus! {

/// The particle after a drift of one step, or `None` when the shift or the
/// new position does not fit.
pub open spec fn drift(p: ParticleModel, dt: int) -> Option<ParticleModel> {
    let shift = product(p.velocity, dt);
    if representable(shift) && representable(p.position + shift) {
        Some(ParticleModel { position: p.position + shift, ..p })
    } else {
        None
    }
}

/// The particles after a drift of one step, or `None` when one of them has no
/// new position.
pub open spec fn drifted(ps: Seq<ParticleModel>, dt: int) -> Option<Seq<ParticleModel>> {
    if forall|i: int| 0 <= i < ps.len() ==> drift(#[trigger] ps[i], dt) is Some {
        Some(Seq::new(ps.len(), |i: int| drift(ps[i], dt)->0))
    } else {
        None
    }
}

/// Moves one particle.
pub fn advance_particle(p: Particle, dt: Fixed) -> (r: Result<Particle, EngineError>)
    ensures
        match r {
            Ok(q) => drift(p@, dt@) == Some(q@),
            Err(e) => e == EngineError::NumericalDegeneracy && drift(p@, dt@) is None,
        },
{
    let shift = settle(p.velocity.checked_mul(dt))?;
    let position = settle(p.position.checked_add(shift))?;
    Ok(
        Particle {
            position,
            velocity: p.velocity,
            mass: p.mass,
            charge: p.charge,
            radius: p.radius,
            spin: p.spin,
        },
    )
}

/// Moves every particle by `velocity * dt`.
///
/// The result holds the particles in the same order, each with its new
/// position and everything else unchanged. The move fails exactly when some
/// particle's shift or new position does not fit.
pub fn advance(particles: &ParticleSet, dt: Fixed) -> (r: Result<ParticleSet, EngineError>)
    ensures
        match r {
            Ok(moved) => drifted(particles@, dt@) == Some(moved@) && moved@.len()
                == particles@.len(),
            Err(e) => e == EngineError::NumericalDegeneracy && drifted(particles@, dt@) is None,
        },
{
    let count = particles.len();
    let mut next: Vec<Particle> = Vec::new();
    let mut i: usize = 0;
    while i < count
        invariant
            count == particles@.len(),
            i <= count,
            next@.len() == i,
            forall|j: int| 0 <= j < i ==> drift(#[trigger] particles@[j], dt@) == Some(next@[j]@),
        decreases count - i,
    {
        match advance_particle(particles.particle(i), dt) {
            Ok(q) => {
                next.push(q);
            },
            Err(e) => {
                assert(drift(particles@[i as int], dt@) is None);
                return Err(e);
            },
        }
        i = i + 1;
    }
    let moved = ParticleSet::from_vec(next);
    assert(drifted(particles@, dt@) is Some);
    assert(moved@ =~= drifted(particles@, dt@)->0);
    Ok(moved)
}

} // verus!
