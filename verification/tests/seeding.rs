use corona_sim::error::{ConfigurationFault, EngineError};
use corona_sim::fixed::Fixed;
use corona_sim::grid::Direction;
use corona_sim::seeding::{
    draw_acoustic_waves, draw_alfven_waves, draw_magneto_acoustic_waves, place_particles,
    scatter_particles, seeded_run,
};
use corona_sim::simulation::{RunOutcome, SimulationConfig, SimulationRun, WaveCounts};
use corona_sim::waves::FULL_TURN;
use rand::rngs::StdRng;
use rand::SeedableRng;

fn fx(raw: i64) -> Fixed {
    Fixed::from_raw(raw)
}

const ONE: i64 = 1_000_000_000;
const CENTI: i64 = 10_000_000;

fn make(config: SimulationConfig, seed: u64) -> SimulationRun {
    match seeded_run(config, seed) {
        Ok(run) => run,
        Err(_) => panic!("refused"),
    }
}

#[test]
fn seeded_run_starts_from_a_uniform_field_of_one() {
    let run = make(SimulationConfig::new(100, 1000, fx(CENTI), fx(10 * ONE)), 7);
    assert_eq!(run.grid().len(), 1000);
    assert!(run.grid().strengths().iter().all(|v| v.raw == ONE));
    assert_eq!(run.grid().direction(0), None);
    assert_eq!(run.particles().len(), 100);
    assert!(run.waves().is_none());
    assert_eq!(run.elapsed(), fx(0));
    assert_eq!(run.step_size(), fx(CENTI));
    assert_eq!(run.reconnection_events(), 0);
    assert_eq!(run.series().len(), 0);
}

#[test]
fn seeded_particles_lie_in_the_launch_ranges() {
    let run = make(SimulationConfig::new(500, 10, fx(CENTI), fx(ONE)), 42);
    let particles = run.particles().to_vec();
    for p in particles.iter() {
        assert!(0 <= p.position.raw && p.position.raw < 100 * ONE);
        assert!(-ONE <= p.velocity.raw && p.velocity.raw < ONE);
        assert_eq!(p.mass, fx(ONE));
        assert_eq!(p.charge, fx(ONE));
        assert_eq!(p.radius, fx(ONE / 10));
        assert_eq!(p.spin, fx(ONE / 2));
    }
    // the draws are spread out: not all alike, and on both sides of the middle
    assert!(particles.iter().any(|p| p.position.raw < 50 * ONE));
    assert!(particles.iter().any(|p| p.position.raw >= 50 * ONE));
    assert!(particles.iter().any(|p| p.velocity.raw < 0));
    assert!(particles.iter().any(|p| p.velocity.raw > 0));
    assert!(particles.iter().any(|p| p.position != particles[0].position));
}

#[test]
fn same_seed_gives_the_same_run() {
    let mut config = SimulationConfig::new(20, 12, fx(CENTI), fx(ONE));
    config.waves = Some(WaveCounts { alfven: 5, acoustic: 4, magneto_acoustic: 3 });
    let a = make(config, 123);
    let b = make(config, 123);
    let c = make(config, 124);
    assert_eq!(a.particles().to_vec(), b.particles().to_vec());
    assert_ne!(a.particles().to_vec(), c.particles().to_vec());
    match (a.waves(), b.waves()) {
        (Some(x), Some(y)) => {
            for i in 0..5 {
                assert_eq!(x.alfven(i), y.alfven(i));
            }
            for i in 0..4 {
                assert_eq!(x.acoustic(i), y.acoustic(i));
            }
            for i in 0..3 {
                assert_eq!(x.magneto_acoustic(i), y.magneto_acoustic(i));
            }
        }
        _ => panic!("waves missing"),
    }
}

#[test]
fn seeded_waves_have_the_configured_sizes_and_ranges() {
    let mut config = SimulationConfig::new(3, 8, fx(CENTI), fx(ONE));
    config.waves = Some(WaveCounts { alfven: 200, acoustic: 50, magneto_acoustic: 0 });
    let run = make(config, 99);
    let up = Direction { x: fx(0), y: fx(0), z: fx(ONE) };
    assert_eq!(run.grid().direction(0), Some(up));
    assert_eq!(run.grid().direction(7), Some(up));
    let waves = match run.waves() {
        Some(w) => w,
        None => panic!("waves missing"),
    };
    assert_eq!(waves.alfven_len(), 200);
    assert_eq!(waves.acoustic_len(), 50);
    assert_eq!(waves.magneto_acoustic_len(), 0);
    let mut high_phase = false;
    for i in 0..200 {
        let w = waves.alfven(i).unwrap_or_else(|| panic!("missing"));
        assert!(0 <= w.position.raw && w.position.raw < 100 * ONE);
        assert!(0 <= w.amplitude.raw && w.amplitude.raw < ONE);
        assert!(0 <= w.phase.raw && w.phase.raw < FULL_TURN);
        assert!(0 <= w.frequency.raw && w.frequency.raw < ONE);
        assert!(-ONE <= w.velocity.raw && w.velocity.raw < ONE);
        high_phase = high_phase || w.phase.raw > FULL_TURN / 2;
    }
    assert!(high_phase);
    for i in 0..50 {
        let w = waves.acoustic(i).unwrap_or_else(|| panic!("missing"));
        assert!(0 <= w.position.raw && w.position.raw < 100 * ONE);
        assert!(-ONE <= w.velocity.raw && w.velocity.raw < ONE);
    }
}

#[test]
fn seeded_run_rejects_faulty_counts() {
    assert!(matches!(
        seeded_run(SimulationConfig::new(1, 4, fx(CENTI), fx(ONE)), 1),
        Err(EngineError::Configuration(ConfigurationFault::StencilTooWide))
    ));
    assert!(matches!(
        seeded_run(SimulationConfig::new(0, 5, fx(CENTI), fx(ONE)), 1),
        Err(EngineError::Configuration(ConfigurationFault::NoParticles))
    ));
    assert!(matches!(
        seeded_run(SimulationConfig::new(1, 0, fx(CENTI), fx(ONE)), 1),
        Err(EngineError::Configuration(ConfigurationFault::NoCells))
    ));
}

#[test]
fn seeded_run_runs_to_completion() {
    let mut run = make(SimulationConfig::new(100, 1000, fx(CENTI), fx(ONE / 10)), 2024);
    let report = run.run(10_000);
    assert_eq!(report.outcome, RunOutcome::Completed);
    assert_eq!(report.steps, 20);
    assert_eq!(run.reconnection_events(), 0);
    assert_eq!(run.grid().len(), 1000);
    assert_eq!(run.series().len(), 1);
    assert_eq!(run.series()[0].mean_strength, fx(ONE));
}

#[test]
fn placed_particles_rest_on_the_grid() {
    let mut rng = StdRng::seed_from_u64(5);
    let set = place_particles(&mut rng, 300, 10);
    assert_eq!(set.len(), 300);
    let all = set.to_vec();
    for p in all.iter() {
        assert!(0 <= p.position.raw && p.position.raw < 10 * ONE);
        assert_eq!(p.velocity, fx(0));
    }
    assert!(all.iter().any(|p| p.position.raw >= 5 * ONE));
    assert!(all.iter().any(|p| p.position.raw < 5 * ONE));
    let wide = place_particles(&mut rng, 10, usize::MAX);
    assert!(wide.to_vec().iter().all(|p| p.position.raw >= 0));
}

#[test]
fn scattering_keeps_mass_and_spin() {
    let mut rng = StdRng::seed_from_u64(11);
    let resting = place_particles(&mut rng, 50, 10);
    let scattered = scatter_particles(&mut rng, &resting);
    assert_eq!(scattered.len(), 50);
    let before = resting.to_vec();
    let after = scattered.to_vec();
    for i in 0..50 {
        assert!(0 <= after[i].position.raw && after[i].position.raw < 100 * ONE);
        assert!(-ONE <= after[i].velocity.raw && after[i].velocity.raw < ONE);
        assert_eq!(after[i].mass, before[i].mass);
        assert_eq!(after[i].spin, before[i].spin);
    }
    assert!(after.iter().any(|p| p.velocity.raw != 0));
    assert!(after.iter().any(|p| p.position.raw >= 10 * ONE));
}

#[test]
fn drawn_waves_have_the_asked_count() {
    let mut rng = StdRng::seed_from_u64(3);
    assert_eq!(draw_alfven_waves(&mut rng, 0).len(), 0);
    assert_eq!(draw_alfven_waves(&mut rng, 17).len(), 17);
    assert_eq!(draw_acoustic_waves(&mut rng, 9).len(), 9);
    let m = draw_magneto_acoustic_waves(&mut rng, 100);
    assert_eq!(m.len(), 100);
    assert!(m.iter().all(|w| 0 <= w.position.raw && w.position.raw < 100 * ONE));
    assert!(m.iter().any(|w| w.velocity.raw < 0));
    assert!(m.iter().any(|w| w.velocity.raw >= 0));
}
