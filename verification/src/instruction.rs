//! The closed instruction set a Brain cell can hold.

use vstd::prelude::*;

use crate::rotation::Rotation;

verus! {

/// The closed, exhaustive set of per-cell effects. `Blank` is the empty cell:
/// it has no effect and the Reader refuses to travel onto it.
#[derive(Clone, Copy, Debug, PartialEq, Eq, Structural)]
pub enum InstructionType {
    Move,
    Back,
    Direction,
    RotateLeft,
    RotateRight,
    Blank,
}

/// One Brain cell: an effect, a rotation (meaningful only for `Direction`),
/// and whether the cell is author-editable.
#[derive(Clone, Copy, Debug, PartialEq, Eq, Structural)]
pub struct Instruction {
    pub instruction_type: InstructionType,
    pub rotation: Rotation,
    pub edit: bool,
}

impl Instruction {
    /// The sentinel returned by out-of-range Brain reads: blank and not editable.
    pub open spec fn spec_sentinel() -> Instruction {
        Instruction { instruction_type: InstructionType::Blank, rotation: Rotation::Up, edit: false }
    }

    /// See [`Instruction::spec_sentinel`].
    pub fn sentinel() -> (r: Instruction)
        ensures
            r == Instruction::spec_sentinel(),
    {
        Instruction { instruction_type: InstructionType::Blank, rotation: Rotation::Up, edit: false }
    }

    /// An editable blank cell, the initial contents of every Brain cell.
    pub open spec fn spec_blank() -> Instruction {
        Instruction { instruction_type: InstructionType::Blank, rotation: Rotation::Up, edit: true }
    }

    /// See [`Instruction::spec_blank`].
    pub fn blank() -> (r: Instruction)
        ensures
            r == Instruction::spec_blank(),
    {
        Instruction { instruction_type: InstructionType::Blank, rotation: Rotation::Up, edit: true }
    }
}

} // verus!
