//! Instructions: the entries of a transition table.

use vstd::prelude::*;
use crate::direction::Direction;

verus! {

/// The symbol written to every cell that the machine has not visited,
/// and the symbol that fills each newly grown tape cell.
pub const DEFAULT_SYMBOL: u8 = 0;

/// One transition rule. When the machine is in control state `state` and
/// reads `entry` under the head, it writes `new_entry`, moves the head
/// one cell in `direction`, and enters `new_state` (`None` means the
/// machine halts on this step).
///
/// States are interned: a state is identified by its index into the
/// owning table's list of state names.
#[derive(Debug, PartialEq, Eq, Clone, Copy)]
pub struct Instruction {
    pub state: usize,
    pub entry: u8,
    pub new_state: Option<usize>,
    pub new_entry: u8,
    pub direction: Direction,
}

/// The mathematical counterpart of [`Instruction`], with unbounded
/// state indices.
pub struct InstructionModel {
    pub state: int,
    pub entry: u8,
    pub new_state: Option<int>,
    pub new_entry: u8,
    pub direction: Direction,
}

impl View for Instruction {
    type V = InstructionModel;

    open spec fn view(&self) -> InstructionModel {
        InstructionModel {
            state: self.state as int,
            entry: self.entry,
            new_state: match self.new_state {
                Some(s) => Some(s as int),
                None => None,
            },
            new_entry: self.new_entry,
            direction: self.direction,
        }
    }
}

impl DeepView for Instruction {
    type V = InstructionModel;

    open spec fn deep_view(&self) -> InstructionModel {
        self.view()
    }
}

} // verus!
