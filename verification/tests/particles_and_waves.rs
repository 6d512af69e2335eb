use corona_sim::error::EngineError;
use corona_sim::fixed::Fixed;
use corona_sim::mover::{advance, advance_particle};
use corona_sim::particles::{Particle, ParticleSet};
use corona_sim::waves::{
    advance as advance_waves, advance_wave, AcousticWave, AlfvenWave, MagnetoAcousticWave,
    WaveEnsemble, FULL_TURN,
};

fn fx(raw: i64) -> Fixed {
    Fixed::from_raw(raw)
}

const ONE: i64 = 1_000_000_000;

#[test]
fn new_particle_has_the_nominal_values() {
    let p = Particle::new(fx(3 * ONE), fx(-ONE / 2));
    assert_eq!(p.position, fx(3 * ONE));
    assert_eq!(p.velocity, fx(-ONE / 2));
    assert_eq!(p.mass, fx(ONE));
    assert_eq!(p.charge, fx(ONE));
    assert_eq!(p.radius, fx(ONE / 10));
    assert_eq!(p.spin, fx(ONE / 2));
    let q = Particle::extended(fx(1), fx(2), fx(3), fx(4), fx(5), fx(6));
    assert_eq!(
        q,
        Particle {
            position: fx(1),
            velocity: fx(2),
            mass: fx(3),
            charge: fx(4),
            radius: fx(5),
            spin: fx(6)
        }
    );
}

#[test]
fn particle_set_keeps_order() {
    let a = Particle::new(fx(1), fx(2));
    let b = Particle::new(fx(3), fx(4));
    let set = ParticleSet::from_vec(vec![a, b]);
    assert_eq!(set.len(), 2);
    assert_eq!(set.get(0), Some(a));
    assert_eq!(set.get(1), Some(b));
    assert_eq!(set.get(2), None);
    assert_eq!(set.to_vec(), vec![a, b]);
    assert_eq!(set.velocities(), vec![fx(2), fx(4)]);
}

#[test]
fn mover_adds_velocity_times_step() {
    // position 1, velocity 2, dt 0.5 -> position 2
    let p = Particle::extended(fx(ONE), fx(2 * ONE), fx(7), fx(8), fx(9), fx(10));
    let q = advance_particle(p, fx(ONE / 2)).unwrap_or_else(|_| panic!("degenerate"));
    assert_eq!(q.position, fx(2 * ONE));
    assert_eq!(q.velocity, fx(2 * ONE));
    assert_eq!((q.mass, q.charge, q.radius, q.spin), (fx(7), fx(8), fx(9), fx(10)));
    // velocity -0.3, dt 0.01 -> shift -0.003
    let r = advance_particle(Particle::new(fx(0), fx(-300_000_000)), fx(10_000_000))
        .unwrap_or_else(|_| panic!("degenerate"));
    assert_eq!(r.position, fx(-3_000_000));
}

#[test]
fn mover_has_no_boundary() {
    let p = Particle::new(fx(-5 * ONE), fx(-ONE));
    let q = advance_particle(p, fx(ONE)).unwrap_or_else(|_| panic!("degenerate"));
    assert_eq!(q.position, fx(-6 * ONE));
    let far = Particle::new(fx(1_000_000 * ONE), fx(ONE));
    let r = advance_particle(far, fx(ONE)).unwrap_or_else(|_| panic!("degenerate"));
    assert_eq!(r.position, fx(1_000_001 * ONE));
}

#[test]
fn mover_moves_every_particle() {
    let set = ParticleSet::from_vec(vec![
        Particle::new(fx(0), fx(ONE)),
        Particle::new(fx(ONE), fx(-ONE)),
        Particle::new(fx(5), fx(0)),
    ]);
    let moved = advance(&set, fx(10_000_000)).unwrap_or_else(|_| panic!("degenerate"));
    let positions: Vec<i64> = moved.to_vec().iter().map(|p| p.position.raw).collect();
    assert_eq!(positions, vec![10_000_000, ONE - 10_000_000, 5]);
    assert_eq!(moved.len(), 3);
    let empty = advance(&ParticleSet::from_vec(Vec::new()), fx(1)).unwrap_or_else(|_| panic!("x"));
    assert_eq!(empty.len(), 0);
}

#[test]
fn mover_refuses_positions_that_do_not_fit() {
    let p = Particle::new(fx(i64::MAX), fx(ONE));
    assert_eq!(advance_particle(p, fx(ONE)), Err(EngineError::NumericalDegeneracy));
    let fast = Particle::new(fx(0), fx(i64::MAX));
    assert_eq!(advance_particle(fast, fx(2 * ONE)), Err(EngineError::NumericalDegeneracy));
    let set = ParticleSet::from_vec(vec![Particle::new(fx(0), fx(0)), p]);
    assert!(matches!(advance(&set, fx(ONE)), Err(EngineError::NumericalDegeneracy)));
}

#[test]
fn mover_is_linear_over_uneven_steps() {
    // velocity 0.75; steps that sum to 1.0 in different ways
    let v = 750_000_000;
    let start = 2 * ONE;
    for steps in [
        vec![ONE],
        vec![ONE / 2, ONE / 2],
        vec![10_000_000; 100],
        vec![333_333_333, 333_333_333, 333_333_334],
        vec![1, 999_999_999],
    ] {
        let mut p = Particle::new(fx(start), fx(v));
        for dt in steps.iter() {
            p = advance_particle(p, fx(*dt)).unwrap_or_else(|_| panic!("degenerate"));
        }
        let exact = start + 750_000_000;
        let error = (p.position.raw - exact).abs();
        assert!(error <= steps.len() as i64);
        assert_eq!(p.velocity, fx(v));
    }
}

#[test]
fn alfven_wave_decays_and_turns() {
    // amplitude 1, phase 0.5, frequency 0.25, dt 0.01:
    // amplitude -> 0.999, phase -> 0.5 + 2 pi * 0.25 * 0.01
    let w = AlfvenWave::new(fx(7), fx(ONE), fx(ONE / 2), fx(ONE / 4), fx(-3));
    let u = advance_wave(w, fx(10_000_000)).unwrap_or_else(|_| panic!("degenerate"));
    assert_eq!(u.amplitude, fx(999_000_000));
    // 2 pi * 0.25 = 1.570796326 (rounded toward zero), times 0.01 = 0.015707963
    assert_eq!(u.phase, fx(ONE / 2 + 15_707_963));
    assert_eq!(u.position, fx(7));
    assert_eq!(u.frequency, fx(ONE / 4));
    assert_eq!(u.velocity, fx(-3));
}

#[test]
fn amplitude_decays_geometrically_at_a_hundredth() {
    let mut w = AlfvenWave::new(fx(0), fx(ONE), fx(0), fx(0), fx(0));
    let mut exact = 1.0f64;
    for n in 1..=500 {
        w = advance_wave(w, fx(10_000_000)).unwrap_or_else(|_| panic!("degenerate"));
        exact *= 0.999;
        let got = w.amplitude.raw as f64 / 1e9;
        assert!((got - exact).abs() <= n as f64 * 1e-9 + 1e-12);
    }
    // 0.999^2 = 0.998001 exactly
    let mut two = AlfvenWave::new(fx(0), fx(ONE), fx(0), fx(0), fx(0));
    two = advance_wave(two, fx(10_000_000)).unwrap_or_else(|_| panic!("degenerate"));
    two = advance_wave(two, fx(10_000_000)).unwrap_or_else(|_| panic!("degenerate"));
    assert_eq!(two.amplitude, fx(998_001_000));
}

#[test]
fn amplitude_is_not_clamped() {
    // dt = 20: the factor is 1 - 2 = -1 and the amplitude changes sign
    let w = AlfvenWave::new(fx(0), fx(ONE / 2), fx(0), fx(0), fx(0));
    let u = advance_wave(w, fx(20 * ONE)).unwrap_or_else(|_| panic!("degenerate"));
    assert_eq!(u.amplitude, fx(-ONE / 2));
}

#[test]
fn phase_grows_without_bound_and_can_be_wrapped() {
    let mut w = AlfvenWave::new(fx(0), fx(0), fx(6 * ONE), fx(ONE), fx(0));
    w = advance_wave(w, fx(ONE)).unwrap_or_else(|_| panic!("degenerate"));
    assert_eq!(w.phase, fx(6 * ONE + FULL_TURN));
    assert_eq!(w.wrapped_phase(), fx(6 * ONE));
    let back = AlfvenWave::new(fx(0), fx(0), fx(-1), fx(0), fx(0));
    assert_eq!(back.wrapped_phase(), fx(FULL_TURN - 1));
    let whole = AlfvenWave::new(fx(0), fx(0), fx(-FULL_TURN), fx(0), fx(0));
    assert_eq!(whole.wrapped_phase(), fx(0));
    let low = AlfvenWave::new(fx(0), fx(0), fx(i64::MIN), fx(0), fx(0));
    let wrapped = low.wrapped_phase().raw;
    assert!(0 <= wrapped && wrapped < FULL_TURN);
    assert_eq!((wrapped as i128 - i64::MIN as i128) % FULL_TURN as i128, 0);
}

#[test]
fn wave_quantities_that_do_not_fit_are_refused() {
    let tall = AlfvenWave::new(fx(0), fx(i64::MAX), fx(0), fx(0), fx(0));
    assert_eq!(advance_wave(tall, fx(-20 * ONE)), Err(EngineError::NumericalDegeneracy));
    let quick = AlfvenWave::new(fx(0), fx(0), fx(0), fx(i64::MAX), fx(0));
    assert_eq!(advance_wave(quick, fx(1)), Err(EngineError::NumericalDegeneracy));
    let late = AlfvenWave::new(fx(0), fx(0), fx(i64::MAX), fx(ONE), fx(0));
    assert_eq!(advance_wave(late, fx(ONE)), Err(EngineError::NumericalDegeneracy));
}

#[test]
fn ensemble_advances_alfven_waves_only() {
    let a = AlfvenWave::new(fx(1), fx(ONE), fx(0), fx(ONE), fx(2));
    let s = AcousticWave::new(fx(3), fx(4));
    let m = MagnetoAcousticWave::new(fx(5), fx(6));
    let e = WaveEnsemble::new(vec![a, a], vec![s], vec![m, m, m]);
    assert_eq!((e.alfven_len(), e.acoustic_len(), e.magneto_acoustic_len()), (2, 1, 3));
    let next = advance_waves(&e, fx(10_000_000)).unwrap_or_else(|_| panic!("degenerate"));
    assert_eq!((next.alfven_len(), next.acoustic_len(), next.magneto_acoustic_len()), (2, 1, 3));
    let u = next.alfven(1).unwrap_or_else(|| panic!("missing"));
    assert_eq!(u.amplitude, fx(999_000_000));
    assert_eq!(u.phase, fx(62_831_853));
    assert_eq!(next.acoustic(0), Some(s));
    assert_eq!(next.magneto_acoustic(2), Some(m));
    assert_eq!(next.alfven(2), None);
    assert_eq!(next.acoustic(1), None);
    assert_eq!(next.magneto_acoustic(3), None);
    assert_eq!(next.amplitudes(), vec![fx(999_000_000), fx(999_000_000)]);
}
