use vstd::prelude::*;

use crate::environment::{Action, ActionId};
use crate::tictactoe::cell::{CellValue, NUM_CELL_VALUES};

verus! {

/// Writing `cell_value` into the cell at `cell_index`.
#[derive(Debug, Clone, Copy, PartialEq, Eq, Structural, PartialOrd, Ord)]
pub struct TicTacToeAction {
    pub cell_value: CellValue,
    pub cell_index: usize,
}

/// The identifier of an action: cell index times the number of values, plus the value's digit.
pub open spec fn spec_action_id(a: TicTacToeAction) -> int {
    a.cell_index * NUM_CELL_VALUES + a.cell_value.spec_value_id()
}

impl TicTacToeAction {
    pub fn value(&self) -> (r: CellValue)
        ensures
            r == self.cell_value,
    {
        self.cell_value
    }

    pub fn index(&self) -> (r: usize)
        ensures
            r == self.cell_index,
    {
        self.cell_index
    }

    pub fn new(value: CellValue, index: usize) -> (r: TicTacToeAction)
        ensures
            r.cell_value == value,
            r.cell_index == index,
    {
        TicTacToeAction { cell_value: value, cell_index: index }
    }

    pub fn action_id(&self) -> (r: ActionId)
        requires
            self.cell_index < 9,
        ensures
            r.0 == spec_action_id(*self),
    {
        ActionId(self.cell_index * CellValue::num_values() + self.cell_value.value_id().0)
    }
}

impl Action for TicTacToeAction {
    open spec fn has_id(&self) -> bool {
        self.cell_index < 9
    }

    fn id(&self) -> (r: ActionId)
        ensures
            r.0 == spec_action_id(*self),
    {
        self.action_id()
    }
}

} // verus!
