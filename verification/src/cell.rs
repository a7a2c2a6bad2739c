//! The continuation cell: the single-slot holder through which the driver
//! passes each resumed value back into a suspended computation.

use vstd::prelude::*;
use crate::value::{SVal, Val};

verus! {

/// Reading an empty cell. The trampoline writes the cell immediately before
/// every resume, so this error marks a driver-internal invariant violation;
/// it is never reachable through [`crate::runtime::run`].
#[derive(Debug, PartialEq, Eq)]
pub struct EmptyCellError;

/// A single-slot holder for a resumed value. The driver writes it exactly
/// once before each resume; the resumed computation reads and clears it.
/// Between a suspension and the matching resume the cell is empty.
pub struct Cell {
    slot: Option<Val>,
}

impl View for Cell {
    type V = Option<SVal>;

    closed spec fn view(&self) -> Option<SVal> {
        match self.slot {
            Some(v) => Some(v@),
            None => None,
        }
    }
}

impl Cell {
    /// A fresh, empty cell.
    pub fn new() -> (c: Cell)
        ensures
            c@ is None,
    {
        Cell { slot: None }
    }

    /// Stores a value, overwriting any previous content.
    pub fn write(&mut self, v: Val)
        ensures
            final(self)@ == Some(v@),
    {
        self.slot = Some(v);
    }

    /// Returns the stored value and empties the cell; fails if nothing was
    /// written since the last read.
    pub fn read_and_clear(&mut self) -> (r: Result<Val, EmptyCellError>)
        ensures
            final(self)@ is None,
            match old(self)@ {
                Some(sv) => r matches Ok(v) && v@ == sv,
                None => r matches Err(_),
            },
    {
        match self.slot.take() {
            Some(v) => Ok(v),
            None => Err(EmptyCellError),
        }
    }
}

} // verus!
