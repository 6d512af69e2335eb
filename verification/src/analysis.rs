//! Figures drawn from the state of a run: the greatest and the mean particle
//! velocity, wave amplitude and field strength, and the range of a time
//! series.

use vstd::prelude::*;
use crate::fixed::Fixed;
use crate::grid::raw_values;
use crate::measure::{mean, mean_of, peak, peak_of, trough, trough_of};
use crate::particles::velocities;
use crate::simulation::{series_model, Sample, SimulationRun};
use crate::waves::amplitudes;

verus! {

/// The greatest value and the mean of a collection.
#[derive(Clone, Copy, Debug, PartialEq, Eq, Structural)]
pub struct Statistic {
    pub maximum: Fixed,
    pub mean: Fixed,
}

/// The figures of one run. An entry is `None` when there is nothing to
/// measure: no particle, no Alfvén wave.
#[derive(Clone, Copy, Debug)]
pub struct Summary {
    pub velocity: Option<Statistic>,
    pub amplitude: Option<Statistic>,
    pub strength: Option<Statistic>,
}

/// True when `r` holds the peak and the mean of `s`, or nothing for an empty
/// `s`.
pub open spec fn measures(r: Option<Statistic>, s: Seq<int>) -> bool {
    match r {
        Some(st) => s.len() > 0 && st.maximum@ == peak(s) && st.mean@ == mean(s),
        None => s.len() == 0,
    }
}

/// The greatest value and the mean of `v`, or `None` when `v` is empty.
pub fn statistic_of(v: &Vec<Fixed>) -> (r: Option<Statistic>)
    ensures
        measures(r, raw_values(v@)),
{
    match (peak_of(v), mean_of(v)) {
        (Some(maximum), Some(mean)) => Some(Statistic { maximum, mean }),
        _ => None,
    }
}

/// The amplitudes of the Alfvén waves of a run; empty for a run without
/// waves.
pub open spec fn run_amplitudes(run: SimulationRun) -> Seq<int> {
    match run@.waves {
        Some(e) => amplitudes(e.alfven),
        None => Seq::empty(),
    }
}

/// Measures the particles, the Alfvén waves and the field of a run.
pub fn summarize(run: &SimulationRun) -> (r: Summary)
    requires
        run.wf(),
    ensures
        measures(r.velocity, velocities(run@.particles)),
        measures(r.amplitude, run_amplitudes(*run)),
        measures(r.strength, run@.grid),
{
    let speeds = run.particles().velocities();
    let heights = match run.waves() {
        Some(w) => w.amplitudes(),
        None => Vec::new(),
    };
    let field = run.grid().strengths();
    proof {
        assert(raw_values(heights@) =~= run_amplitudes(*run));
    }
    Summary {
        velocity: statistic_of(&speeds),
        amplitude: statistic_of(&heights),
        strength: statistic_of(&field),
    }
}

/// The mean strengths of a time series, as raw counts.
pub open spec fn series_strengths(s: Seq<(int, int)>) -> Seq<int> {
    Seq::new(s.len(), |i: int| s[i].1)
}

/// The least and the greatest mean strength of a time series, or `None` for
/// an empty series.
pub fn series_bounds(series: &Vec<Sample>) -> (r: Option<(Fixed, Fixed)>)
    ensures
        match r {
            Some((low, high)) => {
                &&& series@.len() > 0
                &&& low@ == trough(series_strengths(series_model(series@)))
                &&& high@ == peak(series_strengths(series_model(series@)))
            },
            None => series@.len() == 0,
        },
{
    let mut strengths: Vec<Fixed> = Vec::new();
    let mut i: usize = 0;
    while i < series.len()
        invariant
            i <= series@.len(),
            strengths@.len() == i,
            forall|j: int| 0 <= j < i ==> strengths@[j] == series@[j].mean_strength,
        decreases series@.len() - i,
    {
        strengths.push(series[i].mean_strength);
        i = i + 1;
    }
    proof {
        assert(raw_values(strengths@) =~= series_strengths(series_model(series@)));
    }
    match (trough_of(&strengths), peak_of(&strengths)) {
        (Some(low), Some(high)) => Some((low, high)),
        _ => None,
    }
}

} // verus!
