use corona_sim::analysis::{series_bounds, statistic_of, summarize, Statistic};
use corona_sim::fixed::Fixed;
use corona_sim::grid::FieldGrid;
use corona_sim::measure::{mean_of, peak_of, total_of, trough_of};
use corona_sim::particles::{Particle, ParticleSet};
use corona_sim::sequence::duplicate;
use corona_sim::simulation::{Sample, SimulationConfig, SimulationRun, WaveCounts};
use corona_sim::waves::{AlfvenWave, WaveEnsemble};

fn fx(raw: i64) -> Fixed {
    Fixed::from_raw(raw)
}

fn fxs(raws: &[i64]) -> Vec<Fixed> {
    raws.iter().map(|r| fx(*r)).collect()
}

const ONE: i64 = 1_000_000_000;

#[test]
fn sums_peaks_troughs_and_means() {
    let v = fxs(&[3, -7, 11, 0, 5]);
    assert_eq!(total_of(&v), 12);
    assert_eq!(peak_of(&v), Some(fx(11)));
    assert_eq!(trough_of(&v), Some(fx(-7)));
    // 12 / 5 rounds toward zero
    assert_eq!(mean_of(&v), Some(fx(2)));
    assert_eq!(mean_of(&fxs(&[-3, -4])), Some(fx(-3)));
    let empty: Vec<Fixed> = Vec::new();
    assert_eq!(total_of(&empty), 0);
    assert_eq!(peak_of(&empty), None);
    assert_eq!(trough_of(&empty), None);
    assert_eq!(mean_of(&empty), None);
    assert_eq!(peak_of(&fxs(&[i64::MIN])), Some(fx(i64::MIN)));
    assert_eq!(trough_of(&fxs(&[i64::MAX])), Some(fx(i64::MAX)));
}

#[test]
fn extreme_values_do_not_overflow_the_sum() {
    let v = fxs(&[i64::MAX; 64]);
    assert_eq!(total_of(&v), 64 * i64::MAX as i128);
    assert_eq!(mean_of(&v), Some(fx(i64::MAX)));
    let w = fxs(&[i64::MIN; 64]);
    assert_eq!(mean_of(&w), Some(fx(i64::MIN)));
}

#[test]
fn duplicate_copies_element_by_element() {
    let v = fxs(&[1, 2, 3]);
    assert_eq!(duplicate(&v), v);
    let empty: Vec<u8> = Vec::new();
    assert_eq!(duplicate(&empty), empty);
}

#[test]
fn statistic_holds_maximum_and_mean() {
    assert_eq!(
        statistic_of(&fxs(&[ONE, 3 * ONE, -ONE])),
        Some(Statistic { maximum: fx(3 * ONE), mean: fx(ONE) })
    );
    assert_eq!(statistic_of(&Vec::new()), None);
}

#[test]
fn summary_measures_particles_waves_and_field() {
    let mut config = SimulationConfig::new(3, 5, fx(10_000_000), fx(ONE));
    config.waves = Some(WaveCounts { alfven: 2, acoustic: 0, magneto_acoustic: 0 });
    let grid = FieldGrid::from_strengths(fxs(&[ONE, 2 * ONE, 3 * ONE, 4 * ONE, 6 * ONE]))
        .unwrap_or_else(|_| panic!("refused"));
    let particles = ParticleSet::from_vec(vec![
        Particle::new(fx(0), fx(-ONE)),
        Particle::new(fx(0), fx(ONE / 2)),
        Particle::new(fx(0), fx(ONE / 4)),
    ]);
    let waves = WaveEnsemble::new(
        vec![
            AlfvenWave::new(fx(0), fx(ONE / 4), fx(0), fx(0), fx(0)),
            AlfvenWave::new(fx(0), fx(ONE / 2), fx(0), fx(0), fx(0)),
        ],
        Vec::new(),
        Vec::new(),
    );
    let run = SimulationRun::assemble(config, grid, particles, Some(waves))
        .unwrap_or_else(|_| panic!("refused"));
    let s = summarize(&run);
    // mean velocity (-1 + 0.5 + 0.25) / 3 = -0.083333333
    assert_eq!(s.velocity, Some(Statistic { maximum: fx(ONE / 2), mean: fx(-83_333_333) }));
    assert_eq!(s.amplitude, Some(Statistic { maximum: fx(ONE / 2), mean: fx(375_000_000) }));
    assert_eq!(s.strength, Some(Statistic { maximum: fx(6 * ONE), mean: fx(3_200_000_000) }));
}

#[test]
fn summary_of_a_run_without_waves_has_no_amplitude() {
    let config = SimulationConfig::new(1, 5, fx(10_000_000), fx(ONE));
    let grid = FieldGrid::uniform(5, fx(ONE)).unwrap_or_else(|_| panic!("refused"));
    let particles = ParticleSet::from_vec(vec![Particle::new(fx(0), fx(7))]);
    let run =
        SimulationRun::assemble(config, grid, particles, None).unwrap_or_else(|_| panic!("refused"));
    let s = summarize(&run);
    assert_eq!(s.amplitude, None);
    assert_eq!(s.velocity, Some(Statistic { maximum: fx(7), mean: fx(7) }));
    assert_eq!(s.strength, Some(Statistic { maximum: fx(ONE), mean: fx(ONE) }));
}

#[test]
fn series_bounds_span_the_mean_strengths() {
    let series = vec![
        Sample { time: fx(1), mean_strength: fx(5) },
        Sample { time: fx(2), mean_strength: fx(-3) },
        Sample { time: fx(3), mean_strength: fx(9) },
    ];
    assert_eq!(series_bounds(&series), Some((fx(-3), fx(9))));
    assert_eq!(series_bounds(&series[..1].to_vec()), Some((fx(5), fx(5))));
    assert_eq!(series_bounds(&Vec::new()), None);
}
