//! Particles and the set that owns them.

use vstd::prelude::*;
use crate::fixed::Fixed;
use crate::grid::raw_values;

verus! {

/// Raw mass given to a particle made by [`Particle::new`]: one.
pub const UNIT_MASS: i64 = 1_000_000_000;

/// Raw charge given to a particle made by [`Particle::new`]: one.
pub const UNIT_CHARGE: i64 = 1_000_000_000;

/// Raw radius given to a particle made by [`Particle::new`]: a tenth.
pub const NOMINAL_RADIUS: i64 = 100_000_000;

/// Raw spin given to a particle made by [`Particle::new`]: a half.
pub const NOMINAL_SPIN: i64 = 500_000_000;

/// A charged particle on the line. Mass, charge, radius and spin are carried
/// along; no rule of the engine reads them yet.
#[derive(Clone, Copy, Debug, PartialEq, Eq, Structural)]
pub struct Particle {
    pub position: Fixed,
    pub velocity: Fixed,
    pub mass: Fixed,
    pub charge: Fixed,
    pub radius: Fixed,
    pub spin: Fixed,
}

/// A particle as raw counts.
pub struct ParticleModel {
    pub position: int,
    pub velocity: int,
    pub mass: int,
    pub charge: int,
    pub radius: int,
    pub spin: int,
}

impl View for Particle {
    type V = ParticleModel;

    open spec fn view(&self) -> ParticleModel {
        ParticleModel {
            position: self.position@,
            velocity: self.velocity@,
            mass: self.mass@,
            charge: self.charge@,
            radius: self.radius@,
            spin: self.spin@,
        }
    }
}

impl Particle {
    /// A particle at `position` moving at `velocity`, with unit mass and
    /// charge and the nominal radius and spin.
    pub fn new(position: Fixed, velocity: Fixed) -> (p: Particle)
        ensures
            p@ == (ParticleModel {
                position: position@,
                velocity: velocity@,
                mass: UNIT_MASS as int,
                charge: UNIT_CHARGE as int,
                radius: NOMINAL_RADIUS as int,
                spin: NOMINAL_SPIN as int,
            }),
    {
        Particle {
            position,
            velocity,
            mass: Fixed { raw: UNIT_MASS },
            charge: Fixed { raw: UNIT_CHARGE },
            radius: Fixed { raw: NOMINAL_RADIUS },
            spin: Fixed { raw: NOMINAL_SPIN },
        }
    }

    /// A particle with every quantity given.
    pub fn extended(
        position: Fixed,
        velocity: Fixed,
        mass: Fixed,
        charge: Fixed,
        radius: Fixed,
        spin: Fixed,
    ) -> (p: Particle)
        ensures
            p == (Particle { position, velocity, mass, charge, radius, spin }),
    {
        Particle { position, velocity, mass, charge, radius, spin }
    }
}

/// The models of a sequence of particles.
pub open spec fn particle_models(s: Seq<Particle>) -> Seq<ParticleModel> {
    Seq::new(s.len(), |i: int| s[i]@)
}

/// The velocities of a sequence of particles, as raw counts.
pub open spec fn velocities(ps: Seq<ParticleModel>) -> Seq<int> {
    Seq::new(ps.len(), |i: int| ps[i].velocity)
}

/// The particles of a simulation, in a fixed order.
pub struct ParticleSet {
    items: Vec<Particle>,
}

impl View for ParticleSet {
    type V = Seq<ParticleModel>;

    closed spec fn view(&self) -> Seq<ParticleModel> {
        particle_models(self.items@)
    }
}

impl ParticleSet {
    /// The set that holds `items`, in order.
    pub fn from_vec(items: Vec<Particle>) -> (r: ParticleSet)
        ensures
            r@ == particle_models(items@),
    {
        ParticleSet { items }
    }

    /// The number of particles.
    pub fn len(&self) -> (n: usize)
        ensures
            n == self@.len(),
    {
        self.items.len()
    }

    /// Particle `i`.
    pub(crate) fn particle(&self, i: usize) -> (p: Particle)
        requires
            i < self@.len(),
        ensures
            p@ == self@[i as int],
    {
        self.items[i]
    }

    /// Particle `i`, or `None` past the last particle.
    pub fn get(&self, i: usize) -> (r: Option<Particle>)
        ensures
            match r {
                Some(p) => i < self@.len() && p@ == self@[i as int],
                None => i >= self@.len(),
            },
    {
        if i < self.items.len() {
            Some(self.items[i])
        } else {
            None
        }
    }

    /// The velocities of the particles, in order.
    pub fn velocities(&self) -> (v: Vec<Fixed>)
        ensures
            raw_values(v@) == velocities(self@),
    {
        let mut out: Vec<Fixed> = Vec::new();
        let mut i: usize = 0;
        while i < self.items.len()
            invariant
                i <= self.items@.len(),
                out@.len() == i,
                forall|j: int| 0 <= j < i ==> out@[j] == self.items@[j].velocity,
            decreases self.items@.len() - i,
        {
            out.push(self.items[i].velocity);
            i = i + 1;
        }
        assert(raw_values(out@) =~= velocities(self@));
        out
    }

    /// A copy of the particles, in order.
    pub fn to_vec(&self) -> (v: Vec<Particle>)
        ensures
            particle_models(v@) == self@,
    {
        let mut out: Vec<Particle> = Vec::new();
        let mut i: usize = 0;
        while i < self.items.len()
            invariant
                i <= self.items@.len(),
                out@.len() == i,
                forall|j: int| 0 <= j < i ==> out@[j] == self.items@[j],
            decreases self.items@.len() - i,
        {
            out.push(self.items[i]);
            i = i + 1;
        }
        assert(particle_models(out@) =~= self@);
        out
    }
}

} // verus!
