//! Copies of instructions that hold vectors or nested sequences. A copy has
//! the same view as the instruction that it was made from.

use crate::instruction::{
    instructions_view, ControlInstruction, Expression, Instruction, ParametricInstruction,
};
use crate::types::ValueType;
use vstd::prelude::*;

verus! {

fn copy_of_kinds(kinds: &Vec<ValueType>) -> (copy: Vec<ValueType>)
    ensures
        copy@ == kinds@,
{
    let mut copy: Vec<ValueType> = Vec::new();
    let mut i: usize = 0;
    while i < kinds.len()
        invariant
            i <= kinds@.len(),
            copy@ == kinds@.take(i as int),
        decreases kinds@.len() - i,
    {
        copy.push(kinds[i]);
        proof {
            assert(copy@ =~= kinds@.take(i + 1));
        }
        i = i + 1;
    }
    proof {
        assert(kinds@.take(i as int) =~= kinds@);
    }
    copy
}

fn copy_of_labels(labels: &Vec<u32>) -> (copy: Vec<u32>)
    ensures
        copy@ == labels@,
{
    let mut copy: Vec<u32> = Vec::new();
    let mut i: usize = 0;
    while i < labels.len()
        invariant
            i <= labels@.len(),
            copy@ == labels@.take(i as int),
        decreases labels@.len() - i,
    {
        copy.push(labels[i]);
        proof {
            assert(copy@ =~= labels@.take(i + 1));
        }
        i = i + 1;
    }
    proof {
        assert(labels@.take(i as int) =~= labels@);
    }
    copy
}

/// A copy of the instructions of a vector.
pub fn copy_of_instructions(instructions: &Vec<Instruction>) -> (copy: Vec<Instruction>)
    ensures
        instructions_view(copy) == instructions_view(*instructions),
    decreases instructions,
{
    let mut copy: Vec<Instruction> = Vec::new();
    let mut i: usize = 0;
    while i < instructions.len()
        invariant
            i <= instructions@.len(),
            instructions_view(copy) == instructions_view(*instructions).take(i as int),
        decreases instructions@.len() - i,
    {
        let ghost before = instructions_view(copy);
        let item = copy_of_instruction(&instructions[i]);
        copy.push(item);
        proof {
            assert(instructions_view(copy) =~= before.push(item@));
            assert(instructions_view(copy) =~= instructions_view(*instructions).take(i + 1));
        }
        i = i + 1;
    }
    proof {
        assert(instructions_view(*instructions).take(i as int) =~= instructions_view(
            *instructions,
        ));
    }
    copy
}

/// A copy of a control instruction.
pub fn copy_of_control(control: &ControlInstruction) -> (copy: ControlInstruction)
    ensures
        copy@ == control@,
    decreases control,
{
    match control {
        ControlInstruction::Nop => ControlInstruction::Nop,
        ControlInstruction::Unreachable => ControlInstruction::Unreachable,
        ControlInstruction::Block(kind, body) => ControlInstruction::Block(
            *kind,
            Expression { instructions: copy_of_instructions(&body.instructions) },
        ),
        ControlInstruction::Loop(kind, body) => ControlInstruction::Loop(
            *kind,
            Expression { instructions: copy_of_instructions(&body.instructions) },
        ),
        ControlInstruction::If(kind, body, alternate) => {
            let other = match alternate {
                Some(other) => Some(
                    Expression { instructions: copy_of_instructions(&other.instructions) },
                ),
                None => None,
            };
            ControlInstruction::If(
                *kind,
                Expression { instructions: copy_of_instructions(&body.instructions) },
                other,
            )
        },
        ControlInstruction::Branch(label) => ControlInstruction::Branch(*label),
        ControlInstruction::BranchIf(label) => ControlInstruction::BranchIf(*label),
        ControlInstruction::BranchTable(labels, otherwise) => ControlInstruction::BranchTable(
            copy_of_labels(labels),
            *otherwise,
        ),
        ControlInstruction::Return => ControlInstruction::Return,
        ControlInstruction::Call(function) => ControlInstruction::Call(*function),
        ControlInstruction::CallIndirect(kind, table) => ControlInstruction::CallIndirect(
            *kind,
            *table,
        ),
    }
}

/// A copy of a parametric instruction.
pub fn copy_of_parametric(parametric: &ParametricInstruction) -> (copy: ParametricInstruction)
    ensures
        copy@ == parametric@,
{
    match parametric {
        ParametricInstruction::Drop => ParametricInstruction::Drop,
        ParametricInstruction::Select(None) => ParametricInstruction::Select(None),
        ParametricInstruction::Select(Some(kinds)) => ParametricInstruction::Select(
            Some(copy_of_kinds(kinds)),
        ),
    }
}

/// A copy of an instruction.
pub fn copy_of_instruction(instruction: &Instruction) -> (copy: Instruction)
    ensures
        copy@ == instruction@,
    decreases instruction,
{
    match instruction {
        Instruction::Numeric(numeric) => Instruction::Numeric(*numeric),
        Instruction::Reference(reference) => Instruction::Reference(*reference),
        Instruction::Parametric(parametric) => Instruction::Parametric(
            copy_of_parametric(parametric),
        ),
        Instruction::Variable(variable) => Instruction::Variable(*variable),
        Instruction::Table(table) => Instruction::Table(*table),
        Instruction::Memory(memory) => Instruction::Memory(*memory),
        Instruction::Control(control) => Instruction::Control(copy_of_control(control)),
    }
}

impl Clone for ParametricInstruction {
    fn clone(&self) -> (copy: Self)
        ensures
            copy@ == self@,
    {
        copy_of_parametric(self)
    }
}

impl Clone for ControlInstruction {
    fn clone(&self) -> (copy: Self)
        ensures
            copy@ == self@,
    {
        copy_of_control(self)
    }
}

impl Clone for Instruction {
    fn clone(&self) -> (copy: Self)
        ensures
            copy@ == self@,
    {
        copy_of_instruction(self)
    }
}

impl Clone for Expression {
    fn clone(&self) -> (copy: Self)
        ensures
            copy@ == self@,
    {
        Expression { instructions: copy_of_instructions(&self.instructions) }
    }
}

} // verus!
