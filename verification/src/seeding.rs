//! Randomized initial states, drawn from a generator that is seeded
//! explicitly, so that a run can be repeated.
//!
//! Every draw is a whole number of billionths, uniform over a half-open
//! range. The contracts say in which range each drawn quantity lies; which
//! value comes out is up to the generator.

use rand::rngs::StdRng;
use rand::Rng;
use rand::SeedableRng;
use vstd::prelude::*;
use crate::error::EngineError;
use crate::fixed::{Fixed, SCALE};
use crate::grid::{Direction, FieldGrid};
use crate::particles::{
    Particle, ParticleModel, ParticleSet, NOMINAL_RADIUS, NOMINAL_SPIN, UNIT_CHARGE, UNIT_MASS,
};
use crate::simulation::{initial_model, SimulationConfig, SimulationRun, WaveCounts};
use crate::waves::{
    AcousticWave, AlfvenModel, AlfvenWave, EnsembleModel, MagnetoAcousticWave, WaveEnsemble,
    FULL_TURN,
};

verus! {

/// Raw width of the stretch that particles and waves are scattered over: a
/// hundred.
pub const LAUNCH_SPAN: i64 = 100_000_000_000;

/// Raw bound on the speed of a scattered particle or wave: one.
pub const SPEED_LIMIT: i64 = 1_000_000_000;

/// Raw strength of the field a seeded run starts with: one.
pub const INITIAL_FIELD: i64 = 1_000_000_000;

/// The generator type of the `rand` crate that the draws are taken from.
#[verifier::external_type_specification]
#[verifier::external_body]
pub struct ExStdRng(StdRng);

/// Calls `SeedableRng::seed_from_u64` of `rand` for `StdRng`: a generator
/// whose stream is determined by `seed`. Nothing is claimed of the stream.
#[verifier::external_body]
pub(crate) fn generator(seed: u64) -> StdRng {
    StdRng::seed_from_u64(seed)
}

/// Calls `Rng::gen_range` of `rand` on the half-open range `low..high` of
/// `i64`. The range must not be empty, or the call panics; the result lies in
/// the range. Which value it is depends on the state of the generator.
#[verifier::external_body]
pub(crate) fn draw(rng: &mut StdRng, low: i64, high: i64) -> (r: i64)
    requires
        low < high,
    ensures
        low <= r < high,
{
    rng.gen_range(low..high)
}

/// The raw width of a grid of `cells` cells, capped at the largest raw count.
pub open spec fn placement_span(cells: usize) -> int {
    if cells * SCALE <= i64::MAX {
        cells * SCALE
    } else {
        i64::MAX as int
    }
}

/// A particle at rest somewhere on a grid of `cells` cells, with the unit
/// mass and charge and the nominal radius and spin.
pub open spec fn placed(p: ParticleModel, cells: usize) -> bool {
    &&& 0 <= p.position < placement_span(cells)
    &&& p.velocity == 0
    &&& p.mass == UNIT_MASS
    &&& p.charge == UNIT_CHARGE
    &&& p.radius == NOMINAL_RADIUS
    &&& p.spin == NOMINAL_SPIN
}

/// A position in the launch stretch and a velocity below the speed limit.
pub open spec fn launched(position: int, velocity: int) -> bool {
    &&& 0 <= position < LAUNCH_SPAN
    &&& -SPEED_LIMIT <= velocity < SPEED_LIMIT
}

/// An Alfvén wave as the seeding draws it.
pub open spec fn alfven_launched(w: AlfvenModel) -> bool {
    &&& launched(w.position, w.velocity)
    &&& 0 <= w.amplitude < SCALE
    &&& 0 <= w.phase < FULL_TURN
    &&& 0 <= w.frequency < SCALE
}

/// An ensemble of the sizes `counts` whose waves are all as the seeding
/// draws them.
pub open spec fn ensemble_launched(e: EnsembleModel, counts: WaveCounts) -> bool {
    &&& e.alfven.len() == counts.alfven
    &&& e.acoustic.len() == counts.acoustic
    &&& e.magneto_acoustic.len() == counts.magneto_acoustic
    &&& forall|i: int| 0 <= i < e.alfven.len() ==> alfven_launched(#[trigger] e.alfven[i])
    &&& forall|i: int|
        0 <= i < e.acoustic.len() ==> launched(
            (#[trigger] e.acoustic[i]).position@,
            e.acoustic[i].velocity@,
        )
    &&& forall|i: int|
        0 <= i < e.magneto_acoustic.len() ==> launched(
            (#[trigger] e.magneto_acoustic[i]).position@,
            e.magneto_acoustic[i].velocity@,
        )
}

/// Places `count` particles at rest, each somewhere on a grid of `cells`
/// cells.
pub fn place_particles(rng: &mut StdRng, count: usize, cells: usize) -> (r: ParticleSet)
    requires
        cells >= 1,
    ensures
        r@.len() == count,
        forall|i: int| 0 <= i < count ==> placed(#[trigger] r@[i], cells),
{
    let span: i64 = if cells as u64 > (i64::MAX / SCALE) as u64 {
        i64::MAX
    } else {
        (cells as i64) * SCALE
    };
    let mut items: Vec<Particle> = Vec::new();
    let mut i: usize = 0;
    while i < count
        invariant
            i <= count,
            items@.len() == i,
            span == placement_span(cells),
            span >= 1,
            forall|j: int| 0 <= j < i ==> placed((#[trigger] items@[j])@, cells),
        decreases count - i,
    {
        let position = draw(rng, 0, span);
        items.push(Particle::new(Fixed { raw: position }, Fixed { raw: 0 }));
        i = i + 1;
    }
    ParticleSet::from_vec(items)
}

/// Scatters the particles anew: each gets a position in the launch stretch
/// and a velocity below the speed limit, and keeps everything else.
pub fn scatter_particles(rng: &mut StdRng, particles: &ParticleSet) -> (r: ParticleSet)
    ensures
        r@.len() == particles@.len(),
        forall|i: int|
            0 <= i < r@.len() ==> {
                &&& launched((#[trigger] r@[i]).position, r@[i].velocity)
                &&& r@[i] == (ParticleModel {
                    position: r@[i].position,
                    velocity: r@[i].velocity,
                    ..particles@[i]
                })
            },
{
    let count = particles.len();
    let mut items: Vec<Particle> = Vec::new();
    let mut i: usize = 0;
    while i < count
        invariant
            count == particles@.len(),
            i <= count,
            items@.len() == i,
            forall|j: int|
                0 <= j < i ==> {
                    &&& launched((#[trigger] items@[j])@.position, items@[j]@.velocity)
                    &&& items@[j]@ == (ParticleModel {
                        position: items@[j]@.position,
                        velocity: items@[j]@.velocity,
                        ..particles@[j]
                    })
                },
        decreases count - i,
    {
        let before = particles.particle(i);
        let position = draw(rng, 0, LAUNCH_SPAN);
        let velocity = draw(rng, -SPEED_LIMIT, SPEED_LIMIT);
        items.push(
            Particle {
                position: Fixed { raw: position },
                velocity: Fixed { raw: velocity },
                mass: before.mass,
                charge: before.charge,
                radius: before.radius,
                spin: before.spin,
            },
        );
        i = i + 1;
    }
    ParticleSet::from_vec(items)
}

/// Draws `count` Alfvén waves.
pub fn draw_alfven_waves(rng: &mut StdRng, count: usize) -> (r: Vec<AlfvenWave>)
    ensures
        r@.len() == count,
        forall|i: int| 0 <= i < count ==> alfven_launched((#[trigger] r@[i])@),
{
    let mut waves: Vec<AlfvenWave> = Vec::new();
    let mut i: usize = 0;
    while i < count
        invariant
            i <= count,
            waves@.len() == i,
            forall|j: int| 0 <= j < i ==> alfven_launched((#[trigger] waves@[j])@),
        decreases count - i,
    {
        let position = draw(rng, 0, LAUNCH_SPAN);
        let amplitude = draw(rng, 0, SCALE);
        let phase = draw(rng, 0, FULL_TURN);
        let frequency = draw(rng, 0, SCALE);
        let velocity = draw(rng, -SPEED_LIMIT, SPEED_LIMIT);
        waves.push(
            AlfvenWave::new(
                Fixed { raw: position },
                Fixed { raw: amplitude },
                Fixed { raw: phase },
                Fixed { raw: frequency },
                Fixed { raw: velocity },
            ),
        );
        i = i + 1;
    }
    waves
}

/// Draws `count` acoustic waves.
pub fn draw_acoustic_waves(rng: &mut StdRng, count: usize) -> (r: Vec<AcousticWave>)
    ensures
        r@.len() == count,
        forall|i: int|
            0 <= i < count ==> launched((#[trigger] r@[i]).position@, r@[i].velocity@),
{
    let mut waves: Vec<AcousticWave> = Vec::new();
    let mut i: usize = 0;
    while i < count
        invariant
            i <= count,
            waves@.len() == i,
            forall|j: int|
                0 <= j < i ==> launched((#[trigger] waves@[j]).position@, waves@[j].velocity@),
        decreases count - i,
    {
        let position = draw(rng, 0, LAUNCH_SPAN);
        let velocity = draw(rng, -SPEED_LIMIT, SPEED_LIMIT);
        waves.push(AcousticWave::new(Fixed { raw: position }, Fixed { raw: velocity }));
        i = i + 1;
    }
    waves
}

/// Draws `count` magneto-acoustic waves.
pub fn draw_magneto_acoustic_waves(rng: &mut StdRng, count: usize) -> (r: Vec<
    MagnetoAcousticWave,
>)
    ensures
        r@.len() == count,
        forall|i: int|
            0 <= i < count ==> launched((#[trigger] r@[i]).position@, r@[i].velocity@),
{
    let mut waves: Vec<MagnetoAcousticWave> = Vec::new();
    let mut i: usize = 0;
    while i < count
        invariant
            i <= count,
            waves@.len() == i,
            forall|j: int|
                0 <= j < i ==> launched((#[trigger] waves@[j]).position@, waves@[j].velocity@),
        decreases count - i,
    {
        let position = draw(rng, 0, LAUNCH_SPAN);
        let velocity = draw(rng, -SPEED_LIMIT, SPEED_LIMIT);
        waves.push(MagnetoAcousticWave::new(Fixed { raw: position }, Fixed { raw: velocity }));
        i = i + 1;
    }
    waves
}

/// The direction every cell of a seeded run with waves points in: along z.
pub open spec fn upward() -> Direction {
    Direction { x: Fixed { raw: 0 }, y: Fixed { raw: 0 }, z: Fixed { raw: SCALE } }
}

/// What holds of the start of every seeded run: the field is one everywhere,
/// there are as many particles as configured, each scattered over the launch
/// stretch with the unit mass and charge and the nominal radius and spin,
/// and in a run with waves the ensemble has the configured sizes, all its
/// waves are within the launch ranges, and every cell points along z.
pub open spec fn seeded_start(run: SimulationRun, config: SimulationConfig) -> bool {
    &&& run@ == initial_model(
        config,
        Seq::new(config.cell_count as nat, |i: int| INITIAL_FIELD as int),
        run@.particles,
        run@.waves,
    )
    &&& run@.particles.len() == config.particle_count
    &&& forall|i: int|
        0 <= i < run@.particles.len() ==> {
            &&& launched((#[trigger] run@.particles[i]).position, run@.particles[i].velocity)
            &&& run@.particles[i].mass == UNIT_MASS
            &&& run@.particles[i].charge == UNIT_CHARGE
            &&& run@.particles[i].radius == NOMINAL_RADIUS
            &&& run@.particles[i].spin == NOMINAL_SPIN
        }
    &&& match config.waves {
        Some(counts) => {
            &&& run@.waves is Some
            &&& ensemble_launched(run@.waves->0, counts)
            &&& run.directions() == Seq::new(config.cell_count as nat, |i: int| upward())
        },
        None => run@.waves is None && run.directions().len() == 0,
    }
}

/// Makes a run whose particles and waves are drawn from a generator seeded
/// with `seed`.
///
/// Fails exactly when the counts of the configuration are faulty.
pub fn seeded_run(config: SimulationConfig, seed: u64) -> (r: Result<SimulationRun, EngineError>)
    ensures
        match r {
            Ok(run) => config.fault() is None && run.wf() && seeded_start(run, config),
            Err(e) => config.fault() is Some && e == EngineError::Configuration(
                config.fault()->0,
            ),
        },
{
    config.validate()?;
    let mut rng = generator(seed);
    let resting = place_particles(&mut rng, config.particle_count, config.cell_count);
    let waves = match config.waves {
        Some(counts) => {
            let alfven = draw_alfven_waves(&mut rng, counts.alfven);
            let acoustic = draw_acoustic_waves(&mut rng, counts.acoustic);
            let magneto_acoustic = draw_magneto_acoustic_waves(&mut rng, counts.magneto_acoustic);
            Some(WaveEnsemble::new(alfven, acoustic, magneto_acoustic))
        },
        None => None,
    };
    let particles = scatter_particles(&mut rng, &resting);
    let plain = match FieldGrid::uniform(config.cell_count, Fixed { raw: INITIAL_FIELD }) {
        Ok(g) => g,
        Err(e) => {
            return Err(e);
        },
    };
    let grid = match config.waves {
        Some(_) => plain.directed(
            Direction { x: Fixed { raw: 0 }, y: Fixed { raw: 0 }, z: Fixed { raw: SCALE } },
        ),
        None => plain,
    };
    SimulationRun::assemble(config, grid, particles, waves)
}

} // verus!
