//! A simulation run: the state of one run, the step that advances it and the
//! loop that drives it to the configured total time.
//!
//! One step applies, in this order, the field solver, the wave updater (when
//! the run has waves), the particle mover and the reconnection monitor. It
//! then chooses the next step from the new field, takes a sample of the field
//! when one is due, and advances the elapsed time by the new step. A step
//! either happens as a whole or, when some quantity degenerates, not at all.

use vstd::prelude::*;
use crate::controller::{adapt, next_step};
use crate::error::{ConfigurationFault, EngineError};
use crate::fixed::{quotient, representable, wide_quotient, Fixed};
use crate::grid::{FieldGrid, MIN_CELLS};
use crate::measure::{lemma_mean_fits, total};
use crate::monitor::{pass, pass_model, standard_policy, PolicyModel, ReconnectionPolicy};
use crate::mover::drifted;
use crate::particles::{ParticleModel, ParticleSet};
use crate::sequence::duplicate;
use crate::solver::advanced;
use crate::waves::{ensemble_after, forced, EnsembleModel, WaveEnsemble};

verus! {

/// Raw time between two samples of the field at the nominal step: a tenth.
pub const SAMPLE_INTERVAL: i64 = 100_000_000;

/// How many waves of each kind a run has.
#[derive(Clone, Copy, Debug, PartialEq, Eq)]
pub struct WaveCounts {
    pub alfven: usize,
    pub acoustic: usize,
    pub magneto_acoustic: usize,
}

/// What a run is made from.
#[derive(Clone, Copy, Debug)]
pub struct SimulationConfig {
    /// The number of particles; at least one.
    pub particle_count: usize,
    /// The number of cells; at least [`MIN_CELLS`].
    pub cell_count: usize,
    /// The size of the first step, and the nominal step of the sampler.
    pub initial_step: Fixed,
    /// The run ends once this much time has elapsed.
    pub total_time: Fixed,
    /// The rule of the reconnection monitor.
    pub policy: ReconnectionPolicy,
    /// The sizes of the wave ensemble, or `None` for a run without waves.
    pub waves: Option<WaveCounts>,
}

/// The number of steps between two samples: the sampling interval over the
/// nominal step, and at least one.
pub open spec fn sampling_stride(nominal_step: int) -> nat {
    if nominal_step <= 0 || (SAMPLE_INTERVAL as int) / nominal_step == 0 {
        1
    } else {
        ((SAMPLE_INTERVAL as int) / nominal_step) as nat
    }
}

impl SimulationConfig {
    /// A configuration with the standard reconnection policy and no waves.
    pub fn new(particle_count: usize, cell_count: usize, initial_step: Fixed, total_time: Fixed) -> (c:
        SimulationConfig)
        ensures
            c.particle_count == particle_count,
            c.cell_count == cell_count,
            c.initial_step == initial_step,
            c.total_time == total_time,
            c.policy == standard_policy(),
            c.waves is None,
    {
        SimulationConfig {
            particle_count,
            cell_count,
            initial_step,
            total_time,
            policy: ReconnectionPolicy::standard(),
            waves: None,
        }
    }

    /// The first thing wrong with the counts, if anything is.
    pub open spec fn fault(&self) -> Option<ConfigurationFault> {
        if self.cell_count == 0 {
            Some(ConfigurationFault::NoCells)
        } else if self.cell_count < MIN_CELLS {
            Some(ConfigurationFault::StencilTooWide)
        } else if self.particle_count == 0 {
            Some(ConfigurationFault::NoParticles)
        } else {
            None
        }
    }

    /// Checks the counts.
    pub fn validate(&self) -> (r: Result<(), EngineError>)
        ensures
            match r {
                Ok(_) => self.fault() is None,
                Err(e) => self.fault() is Some && e == EngineError::Configuration(
                    self.fault()->0,
                ),
            },
    {
        if self.cell_count == 0 {
            Err(EngineError::Configuration(ConfigurationFault::NoCells))
        } else if self.cell_count < MIN_CELLS {
            Err(EngineError::Configuration(ConfigurationFault::StencilTooWide))
        } else if self.particle_count == 0 {
            Err(EngineError::Configuration(ConfigurationFault::NoParticles))
        } else {
            Ok(())
        }
    }

    /// The number of steps between two samples.
    pub fn stride(&self) -> (k: u64)
        ensures
            k == sampling_stride(self.initial_step@),
            k >= 1,
    {
        if self.initial_step.raw <= 0 {
            1
        } else {
            let k: i64 = SAMPLE_INTERVAL / self.initial_step.raw;
            if k == 0 {
                1
            } else {
                k as u64
            }
        }
    }
}

/// One point of the time series: a time and the mean field strength.
#[derive(Clone, Copy, Debug, PartialEq, Eq, Structural)]
pub struct Sample {
    pub time: Fixed,
    pub mean_strength: Fixed,
}

/// A time series as pairs of raw counts.
pub open spec fn series_model(s: Seq<Sample>) -> Seq<(int, int)> {
    Seq::new(s.len(), |i: int| (s[i].time@, s[i].mean_strength@))
}

/// The state of a run as values.
pub struct RunModel {
    /// The rule of the monitor.
    pub policy: PolicyModel,
    /// The time at which the run ends.
    pub total_time: int,
    /// The number of steps between two samples; at least one.
    pub stride: nat,
    /// The field, cell by cell.
    pub grid: Seq<int>,
    /// The particles.
    pub particles: Seq<ParticleModel>,
    /// The waves, when the run has any.
    pub waves: Option<EnsembleModel>,
    /// The size of the next step.
    pub step: int,
    /// The time elapsed so far.
    pub elapsed: int,
    /// The reconnection events counted so far.
    pub events: nat,
    /// The number of steps since the last sample was due; below `stride`.
    pub phase: nat,
    /// The sum of the grid totals over the samples taken.
    pub strength_sum: int,
    /// The number of samples taken.
    pub samples: nat,
    /// The time series emitted so far.
    pub series: Seq<(int, int)>,
}

/// The field after the solver and, in a run with waves, the wave forcing.
pub open spec fn field_after(m: RunModel) -> Option<Seq<int>> {
    match advanced(m.grid, m.step) {
        Some(solved) => if m.waves is Some {
            forced(solved, m.step)
        } else {
            Some(solved)
        },
        None => None,
    }
}

/// The waves after one step; the outer `None` stands for a failure, the inner
/// one for a run without waves.
pub open spec fn waves_after(m: RunModel) -> Option<Option<EnsembleModel>> {
    match m.waves {
        Some(e) => match ensemble_after(e, m.step) {
            Some(n) => Some(Some(n)),
            None => None,
        },
        None => Some(None),
    }
}

/// The sum and the count of samples after a step that ends on `grid`: a
/// sample is taken when the phase is zero. `None` when the sum leaves 128
/// bits or the count leaves 64 bits.
pub open spec fn tally(m: RunModel, grid: Seq<int>) -> Option<(int, nat)> {
    if m.phase == 0 {
        if i128::MIN <= m.strength_sum + total(grid) <= i128::MAX && m.samples + 1 <= u64::MAX {
            Some((m.strength_sum + total(grid), m.samples + 1))
        } else {
            None
        }
    } else {
        Some((m.strength_sum, m.samples))
    }
}

/// The phase after one more step.
pub open spec fn next_phase(phase: nat, stride: nat) -> nat {
    if phase + 1 >= stride {
        0
    } else {
        phase + 1
    }
}

/// The run after one step, or `None` when the step degenerates.
pub open spec fn step_model(m: RunModel) -> Option<RunModel> {
    match (field_after(m), waves_after(m), drifted(m.particles, m.step)) {
        (Some(field), Some(waves), Some(moved)) => match pass_model(
            field,
            moved,
            m.events,
            m.policy,
        ) {
            Some(after) => match (next_step(after.grid), tally(m, after.grid)) {
                (Some(dt), Some((sum, samples))) => if representable(m.elapsed + dt) {
                    Some(
                        RunModel {
                            grid: after.grid,
                            particles: after.particles,
                            waves,
                            step: dt,
                            elapsed: m.elapsed + dt,
                            events: after.events,
                            phase: next_phase(m.phase, m.stride),
                            strength_sum: sum,
                            samples,
                            ..m
                        },
                    )
                } else {
                    None
                },
                _ => None,
            },
            None => None,
        },
        _ => None,
    }
}

/// The mean field strength over all samples taken: the accumulated sum over
/// the number of samples times the number of cells.
pub open spec fn average_strength(m: RunModel) -> int {
    quotient(m.strength_sum, (m.samples * m.grid.len()) as int)
}

/// The run once its time is up: the first time, and if any sample was taken,
/// the point (total time, average strength) joins the time series.
pub open spec fn finished(m: RunModel) -> RunModel {
    if m.series.len() == 0 && m.samples > 0 {
        RunModel { series: seq![(m.total_time, average_strength(m))], ..m }
    } else {
        m
    }
}

/// How a call of [`SimulationRun::run`] ended.
#[derive(Clone, Copy, Debug, PartialEq, Eq, Structural)]
pub enum RunOutcome {
    /// The elapsed time has reached the total time.
    Completed,
    /// The step budget ran out first; the run can be resumed.
    BudgetExhausted,
    /// A step degenerated; the state is that of the last good step.
    Degenerate,
}

/// Where a run stands after it was driven with a step budget.
pub struct RunResult {
    pub state: RunModel,
    pub outcome: RunOutcome,
    pub steps: nat,
}

/// Drives a run: steps are taken while the elapsed time is below the total
/// time, at most `budget` of them, and the run stops at the first step that
/// degenerates.
pub open spec fn run_model(m: RunModel, budget: nat) -> RunResult
    decreases budget,
{
    if m.elapsed >= m.total_time {
        RunResult { state: finished(m), outcome: RunOutcome::Completed, steps: 0 }
    } else if budget == 0 {
        RunResult { state: m, outcome: RunOutcome::BudgetExhausted, steps: 0 }
    } else {
        match step_model(m) {
            None => RunResult { state: m, outcome: RunOutcome::Degenerate, steps: 0 },
            Some(n) => {
                let rest = run_model(n, (budget - 1) as nat);
                RunResult { steps: rest.steps + 1, ..rest }
            },
        }
    }
}

/// True when the grid, the particles and the waves have the configured
/// sizes.
pub open spec fn population_matches(
    config: SimulationConfig,
    cells: nat,
    particles: nat,
    waves: Option<EnsembleModel>,
) -> bool {
    &&& cells == config.cell_count
    &&& particles == config.particle_count
    &&& match (config.waves, waves) {
        (None, None) => true,
        (Some(c), Some(e)) => e.alfven.len() == c.alfven && e.acoustic.len() == c.acoustic
            && e.magneto_acoustic.len() == c.magneto_acoustic,
        _ => false,
    }
}

/// The state a run starts in.
pub open spec fn initial_model(
    config: SimulationConfig,
    grid: Seq<int>,
    particles: Seq<ParticleModel>,
    waves: Option<EnsembleModel>,
) -> RunModel {
    RunModel {
        policy: config.policy@,
        total_time: config.total_time@,
        stride: sampling_stride(config.initial_step@),
        grid,
        particles,
        waves,
        step: config.initial_step@,
        elapsed: 0,
        events: 0,
        phase: 0,
        strength_sum: 0,
        samples: 0,
        series: Seq::empty(),
    }
}

/// The view of an optional ensemble.
pub open spec fn waves_model(waves: Option<WaveEnsemble>) -> Option<EnsembleModel> {
    match waves {
        Some(w) => Some(w@),
        None => None,
    }
}

/// What a call of [`SimulationRun::run`] did.
#[derive(Clone, Copy, Debug, PartialEq, Eq, Structural)]
pub struct RunReport {
    /// How the call ended.
    pub outcome: RunOutcome,
    /// The number of steps the call took.
    pub steps: u64,
}

/// One run of the engine. It owns the field, the particles, the waves and
/// the counters of the run.
pub struct SimulationRun {
    config: SimulationConfig,
    stride: u64,
    grid: FieldGrid,
    particles: ParticleSet,
    waves: Option<WaveEnsemble>,
    step: Fixed,
    elapsed: Fixed,
    events: u64,
    phase: u64,
    strength_sum: i128,
    samples: u64,
    series: Vec<Sample>,
}

impl View for SimulationRun {
    type V = RunModel;

    closed spec fn view(&self) -> RunModel {
        RunModel {
            policy: self.config.policy@,
            total_time: self.config.total_time@,
            stride: self.stride as nat,
            grid: self.grid@,
            particles: self.particles@,
            waves: waves_model(self.waves),
            step: self.step@,
            elapsed: self.elapsed@,
            events: self.events as nat,
            phase: self.phase as nat,
            strength_sum: self.strength_sum as int,
            samples: self.samples as nat,
            series: series_model(self.series@),
        }
    }
}

/// What holds of the state of every run.
pub open spec fn model_wf(m: RunModel) -> bool {
    &&& m.grid.len() >= MIN_CELLS
    &&& m.stride >= 1
    &&& m.phase < m.stride
    &&& m.series.len() <= 1
    &&& m.samples * m.grid.len() * (i64::MIN as int) <= m.strength_sum
    &&& m.strength_sum <= m.samples * m.grid.len() * (i64::MAX as int)
}

impl SimulationRun {
    /// The directions of the grid; empty when it carries none.
    pub closed spec fn directions(&self) -> Seq<crate::grid::Direction> {
        self.grid.directions()
    }

    /// A run is well formed when its grid is and its counters are in step.
    pub closed spec fn wf(&self) -> bool {
        &&& self.grid.wf()
        &&& model_wf(self@)
    }

    /// Puts a run together from a configuration and the initial field,
    /// particles and waves.
    ///
    /// Fails when the counts of the configuration are faulty, or when what is
    /// handed over does not have the configured sizes.
    pub fn assemble(
        config: SimulationConfig,
        grid: FieldGrid,
        particles: ParticleSet,
        waves: Option<WaveEnsemble>,
    ) -> (r: Result<SimulationRun, EngineError>)
        requires
            grid.wf(),
        ensures
            match r {
                Ok(run) => {
                    &&& config.fault() is None
                    &&& population_matches(
                        config,
                        grid@.len(),
                        particles@.len(),
                        waves_model(waves),
                    )
                    &&& run.wf()
                    &&& run@ == initial_model(config, grid@, particles@, waves_model(waves))
                    &&& run.directions() == grid.directions()
                },
                Err(e) => match config.fault() {
                    Some(f) => e == EngineError::Configuration(f),
                    None => e == EngineError::Configuration(ConfigurationFault::Mismatch)
                        && !population_matches(
                        config,
                        grid@.len(),
                        particles@.len(),
                        waves_model(waves),
                    ),
                },
            },
    {
        config.validate()?;
        if grid.len() != config.cell_count || particles.len() != config.particle_count {
            return Err(EngineError::Configuration(ConfigurationFault::Mismatch));
        }
        let sizes_agree = match (&config.waves, &waves) {
            (None, None) => true,
            (Some(c), Some(e)) => e.alfven_len() == c.alfven && e.acoustic_len() == c.acoustic
                && e.magneto_acoustic_len() == c.magneto_acoustic,
            _ => false,
        };
        if !sizes_agree {
            return Err(EngineError::Configuration(ConfigurationFault::Mismatch));
        }
        let stride = config.stride();
        let run = SimulationRun {
            config,
            stride,
            grid,
            particles,
            waves,
            step: config.initial_step,
            elapsed: Fixed { raw: 0 },
            events: 0,
            phase: 0,
            strength_sum: 0,
            samples: 0,
            series: Vec::new(),
        };
        proof {
            assert(run@.series =~= Seq::empty());
            assert(0 * run@.grid.len() * (i64::MIN as int) == 0) by (nonlinear_arith);
            assert(0 * run@.grid.len() * (i64::MAX as int) == 0) by (nonlinear_arith);
        }
        Ok(run)
    }

    /// The field.
    pub fn grid(&self) -> (g: &FieldGrid)
        requires
            self.wf(),
        ensures
            g.wf(),
            g@ == self@.grid,
            g.directions() == self.directions(),
    {
        &self.grid
    }

    /// The particles.
    pub fn particles(&self) -> (p: &ParticleSet)
        ensures
            p@ == self@.particles,
    {
        &self.particles
    }

    /// The waves, when the run has any.
    pub fn waves(&self) -> (w: &Option<WaveEnsemble>)
        ensures
            waves_model(*w) == self@.waves,
    {
        &self.waves
    }

    /// The size of the next step.
    pub fn step_size(&self) -> (dt: Fixed)
        ensures
            dt@ == self@.step,
    {
        self.step
    }

    /// The time elapsed so far.
    pub fn elapsed(&self) -> (t: Fixed)
        ensures
            t@ == self@.elapsed,
    {
        self.elapsed
    }

    /// The number of reconnection events counted so far.
    pub fn reconnection_events(&self) -> (n: u64)
        ensures
            n == self@.events,
    {
        self.events
    }

    /// The time series emitted so far.
    pub fn series(&self) -> (s: Vec<Sample>)
        ensures
            series_model(s@) == self@.series,
    {
        duplicate(&self.series)
    }

    /// Takes one step.
    ///
    /// On success the run is in the state that [`step_model`] gives. On
    /// failure the step would have degenerated, and the run is left exactly
    /// as it was.
    pub fn step(&mut self) -> (r: Result<(), EngineError>)
        requires
            old(self).wf(),
        ensures
            final(self).wf(),
            final(self).directions() == old(self).directions(),
            final(self)@.grid.len() == old(self)@.grid.len(),
            final(self)@.particles.len() == old(self)@.particles.len(),
            final(self)@.events >= old(self)@.events,
            match r {
                Ok(_) => step_model(old(self)@) == Some(final(self)@),
                Err(e) => {
                    &&& e == EngineError::NumericalDegeneracy
                    &&& step_model(old(self)@) is None
                    &&& *final(self) == *old(self)
                },
            },
    {
        let dt = self.step;
        let solved = crate::solver::advance(&self.grid, dt)?;
        let field = match &self.waves {
            Some(_) => crate::waves::force(&solved, dt)?,
            None => solved,
        };
        let waves = match &self.waves {
            Some(w) => Some(crate::waves::advance(w, dt)?),
            None => None,
        };
        let moved = crate::mover::advance(&self.particles, dt)?;
        let (grid, particles, events) = pass(&field, &moved, self.events, &self.config.policy)?;
        let next = adapt(&grid)?;
        let mut strength_sum = self.strength_sum;
        let mut samples = self.samples;
        if self.phase == 0 {
            let sum = grid.total();
            strength_sum = match self.strength_sum.checked_add(sum) {
                Some(s) => s,
                None => {
                    return Err(EngineError::NumericalDegeneracy);
                },
            };
            if self.samples == u64::MAX {
                return Err(EngineError::NumericalDegeneracy);
            }
            samples = self.samples + 1;
            proof {
                let cells = grid@.len() as int;
                let taken = self.samples as int;
                assert((taken + 1) * cells * (i64::MIN as int) == taken * cells * (i64::MIN as int)
                    + cells * (i64::MIN as int)) by (nonlinear_arith);
                assert((taken + 1) * cells * (i64::MAX as int) == taken * cells * (i64::MAX as int)
                    + cells * (i64::MAX as int)) by (nonlinear_arith);
            }
        }
        let elapsed = match self.elapsed.checked_add(next) {
            Some(t) => t,
            None => {
                return Err(EngineError::NumericalDegeneracy);
            },
        };
        let phase = if self.phase + 1 >= self.stride {
            0
        } else {
            self.phase + 1
        };
        self.grid = grid;
        self.particles = particles;
        self.waves = waves;
        self.step = next;
        self.elapsed = elapsed;
        self.events = events;
        self.phase = phase;
        self.strength_sum = strength_sum;
        self.samples = samples;
        Ok(())
    }

    /// Closes the time series once the time is up: the first time, and if
    /// any sample was taken, the point (total time, average strength) is
    /// appended.
    fn finish(&mut self)
        requires
            old(self).wf(),
        ensures
            final(self).wf(),
            final(self)@ == finished(old(self)@),
            final(self).directions() == old(self).directions(),
    {
        if self.series.len() == 0 && self.samples > 0 {
            let cells = self.grid.len();
            assert((self.samples as int) * (cells as int) <= 0xffff_ffff_ffff_ffff
                * 0xffff_ffff_ffff_ffff && (self.samples as int) * (cells as int) >= 1)
                by (nonlinear_arith)
                requires
                    1 <= self.samples <= 0xffff_ffff_ffff_ffff,
                    1 <= cells <= 0xffff_ffff_ffff_ffff,
            ;
            let count: u128 = (self.samples as u128) * (cells as u128);
            proof {
                lemma_mean_fits(self.strength_sum as int, count as int);
            }
            let mean = wide_quotient(self.strength_sum, count);
            let point = Sample {
                time: self.config.total_time,
                mean_strength: Fixed { raw: mean as i64 },
            };
            self.series.push(point);
            proof {
                assert(self@.series =~= seq![
                    (old(self)@.total_time, average_strength(old(self)@)),
                ]);
            }
        }
    }

    /// Drives the run until the elapsed time reaches the total time, for at
    /// most `budget` steps.
    ///
    /// The run stops early, in the state of the last good step, when a step
    /// degenerates. When the time is up the time series is closed. The report
    /// says how the call ended and how many steps it took.
    pub fn run(&mut self, budget: u64) -> (report: RunReport)
        requires
            old(self).wf(),
        ensures
            final(self).wf(),
            run_model(old(self)@, budget as nat) == (RunResult {
                state: final(self)@,
                outcome: report.outcome,
                steps: report.steps as nat,
            }),
            final(self).directions() == old(self).directions(),
            final(self)@.grid.len() == old(self)@.grid.len(),
            final(self)@.particles.len() == old(self)@.particles.len(),
            final(self)@.events >= old(self)@.events,
    {
        let ghost start = self@;
        let ghost pointers = self.directions();
        let mut steps: u64 = 0;
        loop
            invariant
                self.wf(),
                steps <= budget,
                start == old(self)@,
                pointers == old(self).directions(),
                run_model(start, budget as nat).state == run_model(
                    self@,
                    (budget - steps) as nat,
                ).state,
                run_model(start, budget as nat).outcome == run_model(
                    self@,
                    (budget - steps) as nat,
                ).outcome,
                run_model(start, budget as nat).steps == steps + run_model(
                    self@,
                    (budget - steps) as nat,
                ).steps,
                self.directions() == pointers,
                self@.grid.len() == start.grid.len(),
                self@.particles.len() == start.particles.len(),
                self@.events >= start.events,
            decreases budget - steps,
        {
            if self.elapsed.raw >= self.config.total_time.raw {
                self.finish();
                return RunReport { outcome: RunOutcome::Completed, steps };
            }
            if steps == budget {
                return RunReport { outcome: RunOutcome::BudgetExhausted, steps };
            }
            match self.step() {
                Ok(_) => {
                    steps = steps + 1;
                },
                Err(_) => {
                    return RunReport { outcome: RunOutcome::Degenerate, steps };
                },
            }
        }
    }
}

} // verus!
