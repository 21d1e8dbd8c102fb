//! Construction conveniences: a host integer becomes the integer constant
//! of matching width, an instruction of one family becomes an instruction,
//! a vector of instructions becomes an expression. Nothing is validated; a
//! host-size integer keeps its low 32 bits.

use crate::decode::{bits_of_i32, bits_of_i64};
use crate::decoding::{pattern32, pattern64};
use crate::instruction::{
    ControlInstruction, Expression, Instruction, MemoryInstruction, NumericInstruction,
    ParametricInstruction, ReferenceInstruction, TableInstruction, VariableInstruction,
};
use vstd::prelude::*;
use vstd::std_specs::convert::FromSpecImpl;

verus! {

impl From<i8> for Instruction {
    fn from(value: i8) -> (instruction: Instruction) {
        Instruction::Numeric(NumericInstruction::I32Constant(bits_of_i32(value as i32)))
    }
}

impl FromSpecImpl<i8> for Instruction {
    open spec fn obeys_from_spec() -> bool {
        true
    }

    open spec fn from_spec(value: i8) -> Instruction {
        Instruction::Numeric(NumericInstruction::I32Constant(pattern32(value as int)))
    }
}

impl From<i16> for Instruction {
    fn from(value: i16) -> (instruction: Instruction) {
        Instruction::Numeric(NumericInstruction::I32Constant(bits_of_i32(value as i32)))
    }
}

impl FromSpecImpl<i16> for Instruction {
    open spec fn obeys_from_spec() -> bool {
        true
    }

    open spec fn from_spec(value: i16) -> Instruction {
        Instruction::Numeric(NumericInstruction::I32Constant(pattern32(value as int)))
    }
}

impl From<i32> for Instruction {
    fn from(value: i32) -> (instruction: Instruction) {
        Instruction::Numeric(NumericInstruction::I32Constant(bits_of_i32(value)))
    }
}

impl FromSpecImpl<i32> for Instruction {
    open spec fn obeys_from_spec() -> bool {
        true
    }

    open spec fn from_spec(value: i32) -> Instruction {
        Instruction::Numeric(NumericInstruction::I32Constant(pattern32(value as int)))
    }
}

impl From<i64> for Instruction {
    fn from(value: i64) -> (instruction: Instruction) {
        Instruction::Numeric(NumericInstruction::I64Constant(bits_of_i64(value)))
    }
}

impl FromSpecImpl<i64> for Instruction {
    open spec fn obeys_from_spec() -> bool {
        true
    }

    open spec fn from_spec(value: i64) -> Instruction {
        Instruction::Numeric(NumericInstruction::I64Constant(pattern64(value as int)))
    }
}

impl From<u8> for Instruction {
    fn from(value: u8) -> (instruction: Instruction) {
        Instruction::Numeric(NumericInstruction::I32Constant(value as u32))
    }
}

impl FromSpecImpl<u8> for Instruction {
    open spec fn obeys_from_spec() -> bool {
        true
    }

    open spec fn from_spec(value: u8) -> Instruction {
        Instruction::Numeric(NumericInstruction::I32Constant(value as u32))
    }
}

impl From<u16> for Instruction {
    fn from(value: u16) -> (instruction: Instruction) {
        Instruction::Numeric(NumericInstruction::I32Constant(value as u32))
    }
}

impl FromSpecImpl<u16> for Instruction {
    open spec fn obeys_from_spec() -> bool {
        true
    }

    open spec fn from_spec(value: u16) -> Instruction {
        Instruction::Numeric(NumericInstruction::I32Constant(value as u32))
    }
}

impl From<u32> for Instruction {
    fn from(value: u32) -> (instruction: Instruction) {
        Instruction::Numeric(NumericInstruction::I32Constant(value))
    }
}

impl FromSpecImpl<u32> for Instruction {
    open spec fn obeys_from_spec() -> bool {
        true
    }

    open spec fn from_spec(value: u32) -> Instruction {
        Instruction::Numeric(NumericInstruction::I32Constant(value))
    }
}

impl From<u64> for Instruction {
    fn from(value: u64) -> (instruction: Instruction) {
        Instruction::Numeric(NumericInstruction::I64Constant(value))
    }
}

impl FromSpecImpl<u64> for Instruction {
    open spec fn obeys_from_spec() -> bool {
        true
    }

    open spec fn from_spec(value: u64) -> Instruction {
        Instruction::Numeric(NumericInstruction::I64Constant(value))
    }
}

impl From<usize> for Instruction {
    fn from(value: usize) -> (instruction: Instruction) {
        Instruction::Numeric(NumericInstruction::I32Constant((value as u64 % 0x1_0000_0000) as u32))
    }
}

impl FromSpecImpl<usize> for Instruction {
    open spec fn obeys_from_spec() -> bool {
        true
    }

    open spec fn from_spec(value: usize) -> Instruction {
        Instruction::Numeric(NumericInstruction::I32Constant((value as int % 0x1_0000_0000) as u32))
    }
}

impl From<NumericInstruction> for Instruction {
    fn from(instruction: NumericInstruction) -> (wrapped: Instruction) {
        Instruction::Numeric(instruction)
    }
}

impl FromSpecImpl<NumericInstruction> for Instruction {
    open spec fn obeys_from_spec() -> bool {
        true
    }

    open spec fn from_spec(instruction: NumericInstruction) -> Instruction {
        Instruction::Numeric(instruction)
    }
}

impl From<ReferenceInstruction> for Instruction {
    fn from(instruction: ReferenceInstruction) -> (wrapped: Instruction) {
        Instruction::Reference(instruction)
    }
}

impl FromSpecImpl<ReferenceInstruction> for Instruction {
    open spec fn obeys_from_spec() -> bool {
        true
    }

    open spec fn from_spec(instruction: ReferenceInstruction) -> Instruction {
        Instruction::Reference(instruction)
    }
}

impl From<ParametricInstruction> for Instruction {
    fn from(instruction: ParametricInstruction) -> (wrapped: Instruction) {
        Instruction::Parametric(instruction)
    }
}

impl FromSpecImpl<ParametricInstruction> for Instruction {
    open spec fn obeys_from_spec() -> bool {
        true
    }

    open spec fn from_spec(instruction: ParametricInstruction) -> Instruction {
        Instruction::Parametric(instruction)
    }
}

impl From<VariableInstruction> for Instruction {
    fn from(instruction: VariableInstruction) -> (wrapped: Instruction) {
        Instruction::Variable(instruction)
    }
}

impl FromSpecImpl<VariableInstruction> for Instruction {
    open spec fn obeys_from_spec() -> bool {
        true
    }

    open spec fn from_spec(instruction: VariableInstruction) -> Instruction {
        Instruction::Variable(instruction)
    }
}

impl From<TableInstruction> for Instruction {
    fn from(instruction: TableInstruction) -> (wrapped: Instruction) {
        Instruction::Table(instruction)
    }
}

impl FromSpecImpl<TableInstruction> for Instruction {
    open spec fn obeys_from_spec() -> bool {
        true
    }

    open spec fn from_spec(instruction: TableInstruction) -> Instruction {
        Instruction::Table(instruction)
    }
}

impl From<MemoryInstruction> for Instruction {
    fn from(instruction: MemoryInstruction) -> (wrapped: Instruction) {
        Instruction::Memory(instruction)
    }
}

impl FromSpecImpl<MemoryInstruction> for Instruction {
    open spec fn obeys_from_spec() -> bool {
        true
    }

    open spec fn from_spec(instruction: MemoryInstruction) -> Instruction {
        Instruction::Memory(instruction)
    }
}

impl From<ControlInstruction> for Instruction {
    fn from(instruction: ControlInstruction) -> (wrapped: Instruction) {
        Instruction::Control(instruction)
    }
}

impl FromSpecImpl<ControlInstruction> for Instruction {
    open spec fn obeys_from_spec() -> bool {
        true
    }

    open spec fn from_spec(instruction: ControlInstruction) -> Instruction {
        Instruction::Control(instruction)
    }
}

impl From<Vec<Instruction>> for Expression {
    fn from(instructions: Vec<Instruction>) -> (expression: Expression) {
        Expression { instructions }
    }
}

impl FromSpecImpl<Vec<Instruction>> for Expression {
    open spec fn obeys_from_spec() -> bool {
        true
    }

    open spec fn from_spec(instructions: Vec<Instruction>) -> Expression {
        Expression { instructions }
    }
}

} // verus!
