//! The wave ensemble and its updater.
//!
//! Per step, every Alfvén wave loses the fraction `0.1 dt` of its amplitude
//! and its phase grows by `2 pi f dt`; the field gains `0.1 dt` in every cell,
//! whatever the waves are. The amplitude is not clamped and the phase is not
//! wrapped. Acoustic and magneto-acoustic waves are kept as they were made.

use vstd::prelude::*;
use crate::error::{settle, EngineError};
use crate::fixed::{product, representable, Fixed, SCALE};
use crate::grid::{raw_values, FieldGrid};
use crate::sequence::duplicate;

verus! {

/// Raw decay rate of an Alfvén amplitude: a tenth per unit of time.
pub const DECAY_RATE: i64 = 100_000_000;

/// Raw rate at which the waves feed the field: a tenth per unit of time.
pub const FORCING_RATE: i64 = 100_000_000;

/// Raw count of a full turn, `2 pi`, rounded toward zero.
pub const FULL_TURN: i64 = 6_283_185_307;

/// An Alfvén wave.
#[derive(Clone, Copy, Debug, PartialEq, Eq, Structural)]
pub struct AlfvenWave {
    pub position: Fixed,
    pub amplitude: Fixed,
    pub phase: Fixed,
    pub frequency: Fixed,
    pub velocity: Fixed,
}

/// An Alfvén wave as raw counts.
pub struct AlfvenModel {
    pub position: int,
    pub amplitude: int,
    pub phase: int,
    pub frequency: int,
    pub velocity: int,
}

impl View for AlfvenWave {
    type V = AlfvenModel;

    open spec fn view(&self) -> AlfvenModel {
        AlfvenModel {
            position: self.position@,
            amplitude: self.amplitude@,
            phase: self.phase@,
            frequency: self.frequency@,
            velocity: self.velocity@,
        }
    }
}

/// An acoustic wave. No rule of the engine changes it.
#[derive(Clone, Copy, Debug, PartialEq, Eq, Structural)]
pub struct AcousticWave {
    pub position: Fixed,
    pub velocity: Fixed,
}

/// A magneto-acoustic wave. No rule of the engine changes it.
#[derive(Clone, Copy, Debug, PartialEq, Eq, Structural)]
pub struct MagnetoAcousticWave {
    pub position: Fixed,
    pub velocity: Fixed,
}

impl AlfvenWave {
    /// The wave with the given state.
    pub fn new(
        position: Fixed,
        amplitude: Fixed,
        phase: Fixed,
        frequency: Fixed,
        velocity: Fixed,
    ) -> (w: AlfvenWave)
        ensures
            w == (AlfvenWave { position, amplitude, phase, frequency, velocity }),
    {
        AlfvenWave { position, amplitude, phase, frequency, velocity }
    }

    /// The phase brought into one turn: the value in `[0, 2 pi)` that differs
    /// from the phase by a whole number of turns.
    pub fn wrapped_phase(&self) -> (r: Fixed)
        ensures
            r@ == self@.phase % (FULL_TURN as int),
            0 <= r@ < FULL_TURN,
    {
        let turn: i64 = FULL_TURN;
        if self.phase.raw >= 0 {
            Fixed { raw: self.phase.raw % turn }
        } else {
            // -(phase + 1) is in [0, i64::MAX]; its remainder mirrors the one
            // wanted.
            let mirrored: i64 = (-(self.phase.raw + 1)) % turn;
            Fixed { raw: turn - 1 - mirrored }
        }
    }
}

impl AcousticWave {
    /// The wave at `position` travelling at `velocity`.
    pub fn new(position: Fixed, velocity: Fixed) -> (w: AcousticWave)
        ensures
            w == (AcousticWave { position, velocity }),
    {
        AcousticWave { position, velocity }
    }
}

impl MagnetoAcousticWave {
    /// The wave at `position` travelling at `velocity`.
    pub fn new(position: Fixed, velocity: Fixed) -> (w: MagnetoAcousticWave)
        ensures
            w == (MagnetoAcousticWave { position, velocity }),
    {
        MagnetoAcousticWave { position, velocity }
    }
}

/// The models of a sequence of Alfvén waves.
pub open spec fn alfven_models(s: Seq<AlfvenWave>) -> Seq<AlfvenModel> {
    Seq::new(s.len(), |i: int| s[i]@)
}

/// The amplitudes of a sequence of Alfvén waves, as raw counts.
pub open spec fn amplitudes(ws: Seq<AlfvenModel>) -> Seq<int> {
    Seq::new(ws.len(), |i: int| ws[i].amplitude)
}

/// The three collections of waves as values.
pub struct EnsembleModel {
    pub alfven: Seq<AlfvenModel>,
    pub acoustic: Seq<AcousticWave>,
    pub magneto_acoustic: Seq<MagnetoAcousticWave>,
}

/// The waves of a simulation: three collections, each of its own size.
pub struct WaveEnsemble {
    alfven: Vec<AlfvenWave>,
    acoustic: Vec<AcousticWave>,
    magneto_acoustic: Vec<MagnetoAcousticWave>,
}

impl View for WaveEnsemble {
    type V = EnsembleModel;

    closed spec fn view(&self) -> EnsembleModel {
        EnsembleModel {
            alfven: alfven_models(self.alfven@),
            acoustic: self.acoustic@,
            magneto_acoustic: self.magneto_acoustic@,
        }
    }
}

impl WaveEnsemble {
    /// The ensemble of the given waves.
    pub fn new(
        alfven: Vec<AlfvenWave>,
        acoustic: Vec<AcousticWave>,
        magneto_acoustic: Vec<MagnetoAcousticWave>,
    ) -> (r: WaveEnsemble)
        ensures
            r@ == (EnsembleModel {
                alfven: alfven_models(alfven@),
                acoustic: acoustic@,
                magneto_acoustic: magneto_acoustic@,
            }),
    {
        WaveEnsemble { alfven, acoustic, magneto_acoustic }
    }

    /// The number of Alfvén waves.
    pub fn alfven_len(&self) -> (n: usize)
        ensures
            n == self@.alfven.len(),
    {
        self.alfven.len()
    }

    /// The number of acoustic waves.
    pub fn acoustic_len(&self) -> (n: usize)
        ensures
            n == self@.acoustic.len(),
    {
        self.acoustic.len()
    }

    /// The number of magneto-acoustic waves.
    pub fn magneto_acoustic_len(&self) -> (n: usize)
        ensures
            n == self@.magneto_acoustic.len(),
    {
        self.magneto_acoustic.len()
    }

    /// The amplitudes of the Alfvén waves, in order.
    pub fn amplitudes(&self) -> (v: Vec<Fixed>)
        ensures
            raw_values(v@) == amplitudes(self@.alfven),
    {
        let mut out: Vec<Fixed> = Vec::new();
        let mut i: usize = 0;
        while i < self.alfven.len()
            invariant
                i <= self.alfven@.len(),
                out@.len() == i,
                forall|j: int| 0 <= j < i ==> out@[j] == self.alfven@[j].amplitude,
            decreases self.alfven@.len() - i,
        {
            out.push(self.alfven[i].amplitude);
            i = i + 1;
        }
        assert(raw_values(out@) =~= amplitudes(self@.alfven));
        out
    }

    /// Alfvén wave `i`, or `None` past the last one.
    pub fn alfven(&self, i: usize) -> (r: Option<AlfvenWave>)
        ensures
            match r {
                Some(w) => i < self@.alfven.len() && w@ == self@.alfven[i as int],
                None => i >= self@.alfven.len(),
            },
    {
        if i < self.alfven.len() {
            Some(self.alfven[i])
        } else {
            None
        }
    }

    /// Acoustic wave `i`, or `None` past the last one.
    pub fn acoustic(&self, i: usize) -> (r: Option<AcousticWave>)
        ensures
            match r {
                Some(w) => i < self@.acoustic.len() && w == self@.acoustic[i as int],
                None => i >= self@.acoustic.len(),
            },
    {
        if i < self.acoustic.len() {
            Some(self.acoustic[i])
        } else {
            None
        }
    }

    /// Magneto-acoustic wave `i`, or `None` past the last one.
    pub fn magneto_acoustic(&self, i: usize) -> (r: Option<MagnetoAcousticWave>)
        ensures
            match r {
                Some(w) => i < self@.magneto_acoustic.len() && w == self@.magneto_acoustic[i as int],
                None => i >= self@.magneto_acoustic.len(),
            },
    {
        if i < self.magneto_acoustic.len() {
            Some(self.magneto_acoustic[i])
        } else {
            None
        }
    }
}

/// The factor `1 - 0.1 dt` that an amplitude is multiplied by in one step.
pub open spec fn decay_factor(dt: int) -> int {
    SCALE - product(DECAY_RATE as int, dt)
}

/// The phase gained in one step: `2 pi f dt`, rounded after each product.
pub open spec fn turn(frequency: int, dt: int) -> int {
    product(product(FULL_TURN as int, frequency), dt)
}

/// An Alfvén wave after one step, or `None` when a quantity on the way does
/// not fit.
pub open spec fn evolve(w: AlfvenModel, dt: int) -> Option<AlfvenModel> {
    if representable(product(DECAY_RATE as int, dt)) && representable(decay_factor(dt))
        && representable(product(w.amplitude, decay_factor(dt))) && representable(
        product(FULL_TURN as int, w.frequency),
    ) && representable(turn(w.frequency, dt)) && representable(w.phase + turn(w.frequency, dt)) {
        Some(
            AlfvenModel {
                amplitude: product(w.amplitude, decay_factor(dt)),
                phase: w.phase + turn(w.frequency, dt),
                ..w
            },
        )
    } else {
        None
    }
}

/// The Alfvén waves after one step, or `None` when one of them has no new
/// state.
pub open spec fn evolved(ws: Seq<AlfvenModel>, dt: int) -> Option<Seq<AlfvenModel>> {
    if forall|i: int| 0 <= i < ws.len() ==> evolve(#[trigger] ws[i], dt) is Some {
        Some(Seq::new(ws.len(), |i: int| evolve(ws[i], dt)->0))
    } else {
        None
    }
}

/// The ensemble after one step: the Alfvén waves evolve, the rest is kept.
pub open spec fn ensemble_after(e: EnsembleModel, dt: int) -> Option<EnsembleModel> {
    match evolved(e.alfven, dt) {
        Some(alfven) => Some(EnsembleModel { alfven, ..e }),
        None => None,
    }
}

/// What the waves add to every cell in one step: `0.1 dt`.
pub open spec fn forcing(dt: int) -> int {
    product(FORCING_RATE as int, dt)
}

/// The grid after the waves have fed it, or `None` when a cell does not fit.
pub open spec fn forced(s: Seq<int>, dt: int) -> Option<Seq<int>> {
    if representable(forcing(dt)) && forall|i: int|
        0 <= i < s.len() ==> representable(#[trigger] s[i] + forcing(dt)) {
        Some(Seq::new(s.len(), |i: int| s[i] + forcing(dt)))
    } else {
        None
    }
}

/// Advances one Alfvén wave by one step.
pub fn advance_wave(w: AlfvenWave, dt: Fixed) -> (r: Result<AlfvenWave, EngineError>)
    ensures
        match r {
            Ok(u) => evolve(w@, dt@) == Some(u@),
            Err(e) => e == EngineError::NumericalDegeneracy && evolve(w@, dt@) is None,
        },
{
    let lost = settle(Fixed { raw: DECAY_RATE }.checked_mul(dt))?;
    let factor = settle(Fixed { raw: SCALE }.checked_sub(lost))?;
    let amplitude = settle(w.amplitude.checked_mul(factor))?;
    let cycles = settle(Fixed { raw: FULL_TURN }.checked_mul(w.frequency))?;
    let gained = settle(cycles.checked_mul(dt))?;
    let phase = settle(w.phase.checked_add(gained))?;
    Ok(
        AlfvenWave {
            position: w.position,
            amplitude,
            phase,
            frequency: w.frequency,
            velocity: w.velocity,
        },
    )
}

/// Advances the ensemble by one step of size `dt`.
///
/// Every Alfvén wave gets its new amplitude and phase; the acoustic and the
/// magneto-acoustic waves are returned as they are. The step fails exactly
/// when some quantity of some wave does not fit.
pub fn advance(waves: &WaveEnsemble, dt: Fixed) -> (r: Result<WaveEnsemble, EngineError>)
    ensures
        match r {
            Ok(next) => ensemble_after(waves@, dt@) == Some(next@),
            Err(e) => e == EngineError::NumericalDegeneracy && ensemble_after(waves@, dt@)
                is None,
        },
{
    let count = waves.alfven.len();
    let mut alfven: Vec<AlfvenWave> = Vec::new();
    let mut i: usize = 0;
    while i < count
        invariant
            count == waves.alfven@.len(),
            i <= count,
            alfven@.len() == i,
            forall|j: int|
                0 <= j < i ==> evolve(#[trigger] waves@.alfven[j], dt@) == Some(alfven@[j]@),
        decreases count - i,
    {
        match advance_wave(waves.alfven[i], dt) {
            Ok(u) => {
                alfven.push(u);
            },
            Err(e) => {
                assert(evolve(waves@.alfven[i as int], dt@) is None);
                return Err(e);
            },
        }
        i = i + 1;
    }
    let next = WaveEnsemble {
        alfven,
        acoustic: duplicate(&waves.acoustic),
        magneto_acoustic: duplicate(&waves.magneto_acoustic),
    };
    assert(evolved(waves@.alfven, dt@) is Some);
    assert(next@.alfven =~= evolved(waves@.alfven, dt@)->0);
    Ok(next)
}

/// Feeds the field: every cell gains `0.1 dt`.
///
/// The result has the directions of `grid`. The step fails exactly when the
/// gain or some cell's new strength does not fit.
pub fn force(grid: &FieldGrid, dt: Fixed) -> (r: Result<FieldGrid, EngineError>)
    requires
        grid.wf(),
    ensures
        match r {
            Ok(g) => {
                &&& g.wf()
                &&& forced(grid@, dt@) == Some(g@)
                &&& g@.len() == grid@.len()
                &&& g.directions() == grid.directions()
            },
            Err(e) => e == EngineError::NumericalDegeneracy && forced(grid@, dt@) is None,
        },
{
    let gain = settle(Fixed { raw: FORCING_RATE }.checked_mul(dt))?;
    let cells = grid.len();
    let mut next: Vec<Fixed> = Vec::new();
    let mut i: usize = 0;
    while i < cells
        invariant
            cells == grid@.len(),
            i <= cells,
            next@.len() == i,
            gain@ == forcing(dt@),
            forall|j: int|
                0 <= j < i ==> representable(#[trigger] grid@[j] + forcing(dt@)) && next@[j]@
                    == grid@[j] + forcing(dt@),
        decreases cells - i,
    {
        match grid.cell(i).checked_add(gain) {
            Some(v) => {
                next.push(v);
            },
            None => {
                assert(!representable(grid@[i as int] + forcing(dt@)));
                return Err(EngineError::NumericalDegeneracy);
            },
        }
        i = i + 1;
    }
    let g = grid.replaced(next);
    assert(forced(grid@, dt@) is Some);
    assert(g@ =~= forced(grid@, dt@)->0);
    Ok(g)
}

} // verus!
