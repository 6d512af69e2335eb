//! The field solver: one explicit step of a fourth-order central difference.
//!
//! Cells within two of either end keep their value. Every interior cell `i`
//! becomes `B[i] + dt * d2B`, where
//! `d2B = (-B[i+2] + 16 B[i+1] - 30 B[i] + 16 B[i-1] - B[i-2]) / (12 dt^2)`,
//! and all reads see the values from before the step.

use vstd::prelude::*;
use crate::error::{settle, EngineError};
use crate::fixed::{narrow, product, ratio, representable, Fixed};
use crate::grid::FieldGrid;

verus! {

/// True for the cells the solver rewrites: those with two neighbours on
/// either side.
pub open spec fn is_interior(cells: nat, i: int) -> bool {
    2 <= i < cells - 2
}

/// The five-point weighted sum around cell `i`.
pub open spec fn stencil(s: Seq<int>, i: int) -> int {
    -s[i + 2] + 16 * s[i + 1] - 30 * s[i] + 16 * s[i - 1] - s[i - 2]
}

/// The divisor `12 dt^2` of the second difference.
pub open spec fn denominator(dt: int) -> int {
    12 * product(dt, dt)
}

/// The second difference `d2B` at cell `i`.
pub open spec fn curvature(s: Seq<int>, i: int, dt: int) -> int {
    ratio(stencil(s, i), denominator(dt))
}

/// The new value of the interior cell `i`, or `None` when the divisor is zero
/// or one of the quantities on the way does not fit.
pub open spec fn cell_after(s: Seq<int>, i: int, dt: int) -> Option<int> {
    let increment = product(dt, curvature(s, i, dt));
    if representable(denominator(dt)) && denominator(dt) != 0 && representable(stencil(s, i))
        && representable(curvature(s, i, dt)) && representable(increment) && representable(
        s[i] + increment,
    ) {
        Some(s[i] + increment)
    } else {
        None
    }
}

/// The grid after one solver step, or `None` when some interior cell has no
/// new value.
pub open spec fn advanced(s: Seq<int>, dt: int) -> Option<Seq<int>> {
    if forall|i: int| is_interior(s.len(), i) ==> cell_after(s, i, dt) is Some {
        Some(
            Seq::new(
                s.len(),
                |i: int|
                    if is_interior(s.len(), i) {
                        cell_after(s, i, dt)->0
                    } else {
                        s[i]
                    },
            ),
        )
    } else {
        None
    }
}

/// Computes the stencil at the interior cell `i`.
fn stencil_at(grid: &FieldGrid, i: usize) -> (r: Option<Fixed>)
    requires
        is_interior(grid@.len(), i as int),
    ensures
        match r {
            Some(v) => v@ == stencil(grid@, i as int),
            None => !representable(stencil(grid@, i as int)),
        },
{
    let cells = grid.len();
    assert(i + 2 < cells);
    let far_right: i128 = grid.cell(i + 2).raw as i128;
    let right: i128 = grid.cell(i + 1).raw as i128;
    let here: i128 = grid.cell(i).raw as i128;
    let left: i128 = grid.cell(i - 1).raw as i128;
    let far_left: i128 = grid.cell(i - 2).raw as i128;
    narrow(-far_right + 16 * right - 30 * here + 16 * left - far_left)
}

/// Computes the new value of the interior cell `i`.
fn advance_cell(grid: &FieldGrid, i: usize, dt: Fixed, divisor: Fixed) -> (r: Result<
    Fixed,
    EngineError,
>)
    requires
        is_interior(grid@.len(), i as int),
        divisor@ == denominator(dt@),
        divisor@ != 0,
    ensures
        match r {
            Ok(v) => cell_after(grid@, i as int, dt@) == Some(v@),
            Err(e) => e == EngineError::NumericalDegeneracy && cell_after(grid@, i as int, dt@)
                is None,
        },
{
    let weighted = settle(stencil_at(grid, i))?;
    let second = settle(weighted.checked_div(divisor))?;
    let increment = settle(dt.checked_mul(second))?;
    settle(grid.cell(i).checked_add(increment))
}

/// Advances the field by one step of size `dt`.
///
/// The result has the cells and the directions of `grid`; interior cells hold
/// their new value. The step fails, and nothing is returned, exactly when
/// `12 dt^2` rounds to zero or some quantity of the update does not fit.
pub fn advance(grid: &FieldGrid, dt: Fixed) -> (r: Result<FieldGrid, EngineError>)
    requires
        grid.wf(),
    ensures
        match r {
            Ok(g) => {
                &&& g.wf()
                &&& advanced(grid@, dt@) == Some(g@)
                &&& g@.len() == grid@.len()
                &&& g.directions() == grid.directions()
            },
            Err(e) => e == EngineError::NumericalDegeneracy && advanced(grid@, dt@) is None,
        },
{
    let cells = grid.len();
    assert(is_interior(grid@.len(), 2));
    let square = match dt.checked_mul(dt) {
        Some(v) => v,
        None => {
            assert(cell_after(grid@, 2, dt@) is None);
            return Err(EngineError::NumericalDegeneracy);
        },
    };
    let divisor = match square.checked_scale(12) {
        Some(v) => v,
        None => {
            assert(cell_after(grid@, 2, dt@) is None);
            return Err(EngineError::NumericalDegeneracy);
        },
    };
    if divisor.raw == 0 {
        assert(cell_after(grid@, 2, dt@) is None);
        return Err(EngineError::NumericalDegeneracy);
    }
    let mut next: Vec<Fixed> = Vec::new();
    let mut i: usize = 0;
    while i < cells
        invariant
            grid.wf(),
            cells == grid@.len(),
            i <= cells,
            next@.len() == i,
            divisor@ == denominator(dt@),
            divisor@ != 0,
            forall|j: int|
                0 <= j < i && is_interior(grid@.len(), j) ==> cell_after(grid@, j, dt@) == Some(
                    next@[j]@,
                ),
            forall|j: int| 0 <= j < i && !is_interior(grid@.len(), j) ==> next@[j]@ == grid@[j],
        decreases cells - i,
    {
        if i < 2 || i >= cells - 2 {
            next.push(grid.cell(i));
        } else {
            match advance_cell(grid, i, dt, divisor) {
                Ok(v) => {
                    next.push(v);
                },
                Err(e) => {
                    return Err(e);
                },
            }
        }
        i = i + 1;
    }
    let g = grid.replaced(next);
    assert(advanced(grid@, dt@) is Some);
    assert(g@ =~= advanced(grid@, dt@)->0);
    Ok(g)
}

} // verus!
