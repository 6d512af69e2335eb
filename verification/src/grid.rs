//! The field grid: one field strength per cell, and optionally one direction
//! per cell.

use vstd::prelude::*;
use crate::error::{ConfigurationFault, EngineError};
use crate::fixed::Fixed;
use crate::measure::{mean, mean_of, peak, peak_of, total, total_of};

verus! {

/// The fewest cells a grid may have: the five-point stencil needs two
/// neighbours on either side of an interior cell.
pub const MIN_CELLS: usize = 5;

/// The raw counts of a sequence of scalars.
pub open spec fn raw_values(s: Seq<Fixed>) -> Seq<int> {
    Seq::new(s.len(), |i: int| s[i]@)
}

/// A unit-free pointer along which the field lies in one cell. It is carried
/// along and never read by the solver.
#[derive(Clone, Copy, Debug, PartialEq, Eq, Structural)]
pub struct Direction {
    pub x: Fixed,
    pub y: Fixed,
    pub z: Fixed,
}

/// The discretized field. The number of cells is fixed when the grid is made.
pub struct FieldGrid {
    strength: Vec<Fixed>,
    direction: Vec<Direction>,
}

impl View for FieldGrid {
    type V = Seq<int>;

    /// The raw field strength of each cell, in cell order.
    closed spec fn view(&self) -> Seq<int> {
        raw_values(self.strength@)
    }
}

impl FieldGrid {
    /// The direction of each cell; empty when the grid carries none.
    pub closed spec fn directions(&self) -> Seq<Direction> {
        self.direction@
    }

    /// A grid has at least [`MIN_CELLS`] cells, and either no directions or
    /// one per cell.
    pub open spec fn wf(&self) -> bool {
        &&& self@.len() >= MIN_CELLS
        &&& (self.directions().len() == 0 || self.directions().len() == self@.len())
    }

    /// The grid of `cells` cells that all hold `value`, without directions.
    pub fn uniform(cells: usize, value: Fixed) -> (r: Result<FieldGrid, EngineError>)
        ensures
            match r {
                Ok(g) => {
                    &&& cells >= MIN_CELLS
                    &&& g.wf()
                    &&& g@ == Seq::new(cells as nat, |i: int| value@)
                    &&& g.directions().len() == 0
                },
                Err(e) => {
                    &&& cells < MIN_CELLS
                    &&& e == cell_count_fault(cells)
                },
            },
    {
        if cells < MIN_CELLS {
            return Err(fault_for(cells));
        }
        let mut strength: Vec<Fixed> = Vec::new();
        let mut i: usize = 0;
        while i < cells
            invariant
                i <= cells,
                strength@.len() == i,
                forall|j: int| 0 <= j < i ==> strength@[j] == value,
            decreases cells - i,
        {
            strength.push(value);
            i = i + 1;
        }
        let g = FieldGrid { strength, direction: Vec::new() };
        assert(g@ =~= Seq::new(cells as nat, |i: int| value@));
        Ok(g)
    }

    /// The grid whose cells hold `values`, in order, without directions.
    pub fn from_strengths(values: Vec<Fixed>) -> (r: Result<FieldGrid, EngineError>)
        ensures
            match r {
                Ok(g) => {
                    &&& values@.len() >= MIN_CELLS
                    &&& g.wf()
                    &&& g@ == raw_values(values@)
                    &&& g.directions().len() == 0
                },
                Err(e) => {
                    &&& values@.len() < MIN_CELLS
                    &&& e == cell_count_fault(values@.len() as usize)
                },
            },
    {
        if values.len() < MIN_CELLS {
            return Err(fault_for(values.len()));
        }
        Ok(FieldGrid { strength: values, direction: Vec::new() })
    }

    /// The same strengths with `direction` in every cell.
    pub fn directed(self, direction: Direction) -> (g: FieldGrid)
        requires
            self.wf(),
        ensures
            g.wf(),
            g@ == self@,
            g.directions() == Seq::new(self@.len(), |i: int| direction),
    {
        let cells = self.strength.len();
        let mut pointers: Vec<Direction> = Vec::new();
        let mut i: usize = 0;
        while i < cells
            invariant
                i <= cells,
                pointers@.len() == i,
                forall|j: int| 0 <= j < i ==> pointers@[j] == direction,
            decreases cells - i,
        {
            pointers.push(direction);
            i = i + 1;
        }
        let g = FieldGrid { strength: self.strength, direction: pointers };
        assert(g.directions() =~= Seq::new(self@.len(), |i: int| direction));
        g
    }

    /// The number of cells.
    pub fn len(&self) -> (n: usize)
        ensures
            n == self@.len(),
    {
        self.strength.len()
    }

    /// The strength of cell `i`.
    pub(crate) fn cell(&self, i: usize) -> (v: Fixed)
        requires
            i < self@.len(),
        ensures
            v@ == self@[i as int],
    {
        self.strength[i]
    }

    /// The strength of cell `i`, or `None` past the last cell.
    pub fn get(&self, i: usize) -> (r: Option<Fixed>)
        ensures
            match r {
                Some(v) => i < self@.len() && v@ == self@[i as int],
                None => i >= self@.len(),
            },
    {
        if i < self.strength.len() {
            Some(self.strength[i])
        } else {
            None
        }
    }

    /// The direction of cell `i`, or `None` when the grid carries no
    /// directions or has no such cell.
    pub fn direction(&self, i: usize) -> (r: Option<Direction>)
        ensures
            match r {
                Some(d) => i < self.directions().len() && d == self.directions()[i as int],
                None => i >= self.directions().len(),
            },
    {
        if i < self.direction.len() {
            Some(self.direction[i])
        } else {
            None
        }
    }

    /// The greatest strength on the grid.
    pub fn peak(&self) -> (r: Fixed)
        requires
            self.wf(),
        ensures
            r@ == peak(self@),
    {
        match peak_of(&self.strength) {
            Some(m) => m,
            None => Fixed { raw: 0 },
        }
    }

    /// The sum of the strengths of all cells, in raw units.
    pub fn total(&self) -> (r: i128)
        ensures
            r == total(self@),
            self@.len() * (i64::MIN as int) <= r <= self@.len() * (i64::MAX as int),
    {
        total_of(&self.strength)
    }

    /// The mean strength over the cells, rounded toward zero.
    pub fn mean(&self) -> (r: Fixed)
        requires
            self.wf(),
        ensures
            r@ == mean(self@),
    {
        match mean_of(&self.strength) {
            Some(m) => m,
            None => Fixed { raw: 0 },
        }
    }

    /// A copy of the strengths, in cell order.
    pub fn strengths(&self) -> (v: Vec<Fixed>)
        ensures
            raw_values(v@) == self@,
    {
        let mut out: Vec<Fixed> = Vec::new();
        let mut i: usize = 0;
        while i < self.strength.len()
            invariant
                i <= self.strength@.len(),
                out@.len() == i,
                forall|j: int| 0 <= j < i ==> out@[j] == self.strength@[j],
            decreases self.strength@.len() - i,
        {
            out.push(self.strength[i]);
            i = i + 1;
        }
        assert(raw_values(out@) =~= self@);
        out
    }

    /// The grid with the same directions and the cells `values`.
    pub(crate) fn replaced(&self, values: Vec<Fixed>) -> (g: FieldGrid)
        requires
            self.wf(),
            values@.len() == self@.len(),
        ensures
            g.wf(),
            g@ == raw_values(values@),
            g.directions() == self.directions(),
    {
        let mut pointers: Vec<Direction> = Vec::new();
        let mut i: usize = 0;
        while i < self.direction.len()
            invariant
                i <= self.direction@.len(),
                pointers@.len() == i,
                forall|j: int| 0 <= j < i ==> pointers@[j] == self.direction@[j],
            decreases self.direction@.len() - i,
        {
            pointers.push(self.direction[i]);
            i = i + 1;
        }
        assert(pointers@ =~= self.direction@);
        FieldGrid { strength: values, direction: pointers }
    }
}

/// The fault of a cell count below [`MIN_CELLS`].
pub open spec fn cell_count_fault(cells: usize) -> EngineError {
    if cells == 0 {
        EngineError::Configuration(ConfigurationFault::NoCells)
    } else {
        EngineError::Configuration(ConfigurationFault::StencilTooWide)
    }
}

fn fault_for(cells: usize) -> (e: EngineError)
    ensures
        e == cell_count_fault(cells),
{
    if cells == 0 {
        EngineError::Configuration(ConfigurationFault::NoCells)
    } else {
        EngineError::Configuration(ConfigurationFault::StencilTooWide)
    }
}

} // verus!
