//! The step controller: the size of the next step follows from the strongest
//! field on the grid, `dt = 0.01 / (1 + max)`.
//!
//! The step shrinks as the field grows. No floor or ceiling is put on it; a
//! step that would be zero or negative is reported instead of taken.

use vstd::prelude::*;
use crate::error::EngineError;
use crate::fixed::{lemma_quotient_remainder, lemma_quotient_shrinks, ratio, Fixed, SCALE};
use crate::grid::FieldGrid;
use crate::measure::peak;

verus! {

/// Raw step taken over a field that vanishes everywhere: a hundredth.
pub const STEP_NUMERATOR: i64 = 10_000_000;

/// The step for a grid whose strongest cell holds `top`.
pub open spec fn step_for(top: int) -> int {
    ratio(STEP_NUMERATOR as int, SCALE + top)
}

/// The next step for the grid `s`, or `None` when it would not be positive.
pub open spec fn next_step(s: Seq<int>) -> Option<int> {
    if step_for(peak(s)) > 0 {
        Some(step_for(peak(s)))
    } else {
        None
    }
}

/// Chooses the next step from the current field.
///
/// Fails exactly when `0.01 / (1 + max)` is not a positive number of
/// billionths: when the strongest cell is at or below minus one, or so strong
/// that the step rounds to zero.
pub fn adapt(grid: &FieldGrid) -> (r: Result<Fixed, EngineError>)
    requires
        grid.wf(),
    ensures
        match r {
            Ok(dt) => next_step(grid@) == Some(dt@) && dt@ > 0,
            Err(e) => e == EngineError::NumericalDegeneracy && next_step(grid@) is None,
        },
{
    let top = grid.peak();
    let load: i128 = SCALE as i128 + top.raw as i128;
    let numerator: i128 = 10_000_000_000_000_000;
    assert(numerator == STEP_NUMERATOR * SCALE) by (nonlinear_arith)
        requires
            numerator == 10_000_000_000_000_000,
    ;
    if load <= 0 {
        proof {
            if load < 0 {
                lemma_quotient_remainder(numerator as int, -load);
            }
        }
        return Err(EngineError::NumericalDegeneracy);
    }
    proof {
        lemma_quotient_shrinks(numerator as int, load as int);
    }
    let step: i128 = numerator / load;
    if step == 0 {
        Err(EngineError::NumericalDegeneracy)
    } else {
        Ok(Fixed { raw: step as i64 })
    }
}

} // verus!
