//! The failures the engine reports.

use vstd::prelude::*;
use crate::fixed::Fixed;

verus! {

/// What is wrong with a configuration, found before any simulation work.
#[derive(Clone, Copy, Debug, PartialEq, Eq, Structural)]
pub enum ConfigurationFault {
    /// The cell count is zero.
    NoCells,
    /// The cell count is positive but leaves the five-point stencil no
    /// interior cell.
    StencilTooWide,
    /// The particle count is zero.
    NoParticles,
    /// The grid, the particles or the waves handed over do not have the
    /// configured sizes.
    Mismatch,
}

/// Why the engine refused to go on.
#[derive(Clone, Copy, Debug, PartialEq, Eq, Structural)]
pub enum EngineError {
    /// The configuration was rejected.
    Configuration(ConfigurationFault),
    /// A quantity of the model left the representable range, a divisor
    /// vanished, or the adaptive step stopped being positive.
    NumericalDegeneracy,
}

/// Turns a missing arithmetic result into [`EngineError::NumericalDegeneracy`].
pub fn settle(value: Option<Fixed>) -> (r: Result<Fixed, EngineError>)
    ensures
        match value {
            Some(v) => r == Ok::<Fixed, EngineError>(v),
            None => r == Err::<Fixed, EngineError>(EngineError::NumericalDegeneracy),
        },
{
    match value {
        Some(v) => Ok(v),
        None => Err(EngineError::NumericalDegeneracy),
    }
}

} // verus!
