//! The binary form of instructions and expressions, as functions from a
//! view to its bytes. Each instruction is its opcode, or the prefix byte and
//! a secondary opcode, followed by its immediates in their fixed order.

use crate::instruction::{
    BlockType, ControlView, InstructionView, MemoryArgument, MemoryInstruction, NumericInstruction,
    ParametricView, ReferenceInstruction, TableInstruction, VariableInstruction,
};
use crate::leb128::{signed_encoding, unsigned_encoding};
use crate::numeric::{by_integer, by_number, by_sign, numeric_opcode, saturating_code};
use crate::types::{reference_type_tag, value_type_tag, NumberType};
use crate::values::{f32_encoding, f64_encoding, vector_encoding};
use vstd::prelude::*;

verus! {

/// The byte that closes a nested instruction sequence.
pub const END: u8 = 0x0B;

/// The byte that opens the alternate branch of a conditional.
pub const ELSE: u8 = 0x05;

/// The byte that opens the instructions with a secondary opcode.
pub const PREFIX: u8 = 0xFC;

/// The signed reading of a 32-bit pattern.
pub open spec fn signed32(bits: u32) -> int {
    if bits < 0x8000_0000 {
        bits as int
    } else {
        bits - 0x1_0000_0000
    }
}

/// The signed reading of a 64-bit pattern.
pub open spec fn signed64(bits: u64) -> int {
    if bits < 0x8000_0000_0000_0000 {
        bits as int
    } else {
        bits - 0x1_0000_0000_0000_0000
    }
}

/// The prefix byte and a secondary opcode.
pub open spec fn prefixed(code: nat) -> Seq<u8> {
    seq![PREFIX] + unsigned_encoding(code)
}

/// Whether a numeric instruction has a binary form. Only a reinterpretation
/// between types of different width has none.
pub open spec fn numeric_encodable(instruction: NumericInstruction) -> bool {
    match instruction {
        NumericInstruction::I32Constant(_) => true,
        NumericInstruction::I64Constant(_) => true,
        NumericInstruction::F32Constant(_) => true,
        NumericInstruction::F64Constant(_) => true,
        NumericInstruction::ConvertAndTruncateWithSaturation(_, _, _) => true,
        _ => numeric_opcode(instruction) is Some,
    }
}

/// The bytes of a numeric instruction. Integer constants are written as
/// signed integers, floating-point constants as their bit pattern.
pub open spec fn numeric_encoding(instruction: NumericInstruction) -> Seq<u8> {
    match instruction {
        NumericInstruction::I32Constant(bits) => seq![0x41u8] + signed_encoding(signed32(bits)),
        NumericInstruction::I64Constant(bits) => seq![0x42u8] + signed_encoding(signed64(bits)),
        NumericInstruction::F32Constant(bits) => seq![0x43u8] + f32_encoding(bits),
        NumericInstruction::F64Constant(bits) => seq![0x44u8] + f64_encoding(bits),
        NumericInstruction::ConvertAndTruncateWithSaturation(to, from, sign) => prefixed(
            saturating_code(to, from, sign) as nat,
        ),
        _ => match numeric_opcode(instruction) {
            Some(opcode) => seq![opcode],
            None => Seq::empty(),
        },
    }
}

/// The bytes of a reference instruction.
pub open spec fn reference_encoding(instruction: ReferenceInstruction) -> Seq<u8> {
    match instruction {
        ReferenceInstruction::Null(kind) => seq![0xD0u8, reference_type_tag(kind)],
        ReferenceInstruction::IsNull => seq![0xD1u8],
        ReferenceInstruction::Function(function) => seq![0xD2u8] + unsigned_encoding(
            function as nat,
        ),
    }
}

/// The bytes of a parametric instruction.
pub open spec fn parametric_encoding(instruction: ParametricView) -> Seq<u8> {
    match instruction {
        ParametricView::Drop => seq![0x1Au8],
        ParametricView::Select(None) => seq![0x1Bu8],
        ParametricView::Select(Some(kinds)) => seq![0x1Cu8] + vector_encoding(kinds),
    }
}

/// The bytes of a variable instruction.
pub open spec fn variable_encoding(instruction: VariableInstruction) -> Seq<u8> {
    match instruction {
        VariableInstruction::LocalGet(index) => seq![0x20u8] + unsigned_encoding(index as nat),
        VariableInstruction::LocalSet(index) => seq![0x21u8] + unsigned_encoding(index as nat),
        VariableInstruction::LocalTee(index) => seq![0x22u8] + unsigned_encoding(index as nat),
        VariableInstruction::GlobalGet(index) => seq![0x23u8] + unsigned_encoding(index as nat),
        VariableInstruction::GlobalSet(index) => seq![0x24u8] + unsigned_encoding(index as nat),
    }
}

/// The bytes of a table instruction.
pub open spec fn table_encoding(instruction: TableInstruction) -> Seq<u8> {
    match instruction {
        TableInstruction::Get(table) => seq![0x25u8] + unsigned_encoding(table as nat),
        TableInstruction::Put(table) => seq![0x26u8] + unsigned_encoding(table as nat),
        TableInstruction::Init(element, table) => prefixed(12) + unsigned_encoding(element as nat)
            + unsigned_encoding(table as nat),
        TableInstruction::ElementDrop(element) => prefixed(13) + unsigned_encoding(element as nat),
        TableInstruction::Copy(target, source) => prefixed(14) + unsigned_encoding(target as nat)
            + unsigned_encoding(source as nat),
        TableInstruction::Grow(table) => prefixed(15) + unsigned_encoding(table as nat),
        TableInstruction::Size(table) => prefixed(16) + unsigned_encoding(table as nat),
        TableInstruction::Fill(table) => prefixed(17) + unsigned_encoding(table as nat),
    }
}

/// The natural alignment of a full-width access, as an exponent.
pub open spec fn natural_align(kind: NumberType) -> u32 {
    by_number(kind, 2, 3, 2, 3) as u32
}

/// The bytes of a memory argument: the offset, then the alignment, where an
/// alignment left out is written as the natural one.
pub open spec fn memory_argument_encoding(argument: MemoryArgument, natural: u32) -> Seq<u8> {
    unsigned_encoding(argument.offset as nat) + unsigned_encoding(
        argument.resolved_align(natural) as nat,
    )
}

/// The bytes of a memory instruction. Width and signedness of a narrow
/// access select the opcode.
pub open spec fn memory_encoding(instruction: MemoryInstruction) -> Seq<u8> {
    match instruction {
        MemoryInstruction::Load(kind, argument) => seq![by_number(kind, 0x28, 0x29, 0x2A, 0x2B)]
            + memory_argument_encoding(argument, natural_align(kind)),
        MemoryInstruction::Load8(kind, sign, argument) => seq![
            by_sign(sign, by_integer(kind, 0x2C, 0x30)),
        ] + memory_argument_encoding(argument, 0),
        MemoryInstruction::Load16(kind, sign, argument) => seq![
            by_sign(sign, by_integer(kind, 0x2E, 0x32)),
        ] + memory_argument_encoding(argument, 1),
        MemoryInstruction::Load32(sign, argument) => seq![by_sign(sign, 0x34)]
            + memory_argument_encoding(argument, 2),
        MemoryInstruction::Store(kind, argument) => seq![by_number(kind, 0x36, 0x37, 0x38, 0x39)]
            + memory_argument_encoding(argument, natural_align(kind)),
        MemoryInstruction::Store8(kind, argument) => seq![by_integer(kind, 0x3A, 0x3C)]
            + memory_argument_encoding(argument, 0),
        MemoryInstruction::Store16(kind, argument) => seq![by_integer(kind, 0x3B, 0x3D)]
            + memory_argument_encoding(argument, 1),
        MemoryInstruction::Store32(argument) => seq![0x3Eu8] + memory_argument_encoding(
            argument,
            2,
        ),
        MemoryInstruction::Size => seq![0x3Fu8, 0x00u8],
        MemoryInstruction::Grow => seq![0x40u8, 0x00u8],
        MemoryInstruction::Init(data) => prefixed(8) + unsigned_encoding(data as nat) + seq![0x00u8],
        MemoryInstruction::DataDrop(data) => prefixed(9) + unsigned_encoding(data as nat),
        MemoryInstruction::Copy => prefixed(10) + seq![0x00u8, 0x00u8],
        MemoryInstruction::Fill => prefixed(11) + seq![0x00u8],
    }
}

/// The bytes of a block type. A type index is written as a signed integer,
/// which keeps it apart from the single bytes of the other two forms.
pub open spec fn block_type_encoding(kind: BlockType) -> Seq<u8> {
    match kind {
        BlockType::Empty => seq![0x40u8],
        BlockType::ValueType(value) => seq![value_type_tag(value)],
        BlockType::Index(index) => signed_encoding(index as int),
    }
}

/// The bytes of a control instruction. A structured instruction is its
/// opcode, its block type, its nested instructions and the end marker; the
/// alternate branch of a conditional stands behind the else marker.
pub open spec fn control_encoding(instruction: ControlView) -> Seq<u8>
    decreases instruction,
{
    match instruction {
        ControlView::Unreachable => seq![0x00u8],
        ControlView::Nop => seq![0x01u8],
        ControlView::Block(kind, body) => seq![0x02u8] + block_type_encoding(kind)
            + sequence_encoding(body, 0) + seq![END],
        ControlView::Loop(kind, body) => seq![0x03u8] + block_type_encoding(kind)
            + sequence_encoding(body, 0) + seq![END],
        ControlView::If(kind, body, None) => seq![0x04u8] + block_type_encoding(kind)
            + sequence_encoding(body, 0) + seq![END],
        ControlView::If(kind, body, Some(alternate)) => seq![0x04u8] + block_type_encoding(kind)
            + sequence_encoding(body, 0) + seq![ELSE] + sequence_encoding(alternate, 0) + seq![END],
        ControlView::Branch(label) => seq![0x0Cu8] + unsigned_encoding(label as nat),
        ControlView::BranchIf(label) => seq![0x0Du8] + unsigned_encoding(label as nat),
        ControlView::BranchTable(labels, otherwise) => seq![0x0Eu8] + vector_encoding(labels)
            + unsigned_encoding(otherwise as nat),
        ControlView::Return => seq![0x0Fu8],
        ControlView::Call(function) => seq![0x10u8] + unsigned_encoding(function as nat),
        ControlView::CallIndirect(kind, table) => seq![0x11u8] + unsigned_encoding(kind as nat)
            + unsigned_encoding(table as nat),
    }
}

/// The bytes of an instruction.
pub open spec fn instruction_encoding(instruction: InstructionView) -> Seq<u8>
    decreases instruction,
{
    match instruction {
        InstructionView::Numeric(numeric) => numeric_encoding(numeric),
        InstructionView::Reference(reference) => reference_encoding(reference),
        InstructionView::Parametric(parametric) => parametric_encoding(parametric),
        InstructionView::Variable(variable) => variable_encoding(variable),
        InstructionView::Table(table) => table_encoding(table),
        InstructionView::Memory(memory) => memory_encoding(memory),
        InstructionView::Control(control) => control_encoding(control),
    }
}

/// The bytes of the instructions of a sequence from index `from` on, one
/// after the other, with no marker behind them.
pub open spec fn sequence_encoding(instructions: Seq<InstructionView>, from: nat) -> Seq<u8>
    decreases instructions, instructions.len() - from,
{
    if from >= instructions.len() {
        Seq::empty()
    } else {
        instruction_encoding(instructions[from as int]) + sequence_encoding(instructions, from + 1)
    }
}

/// The bytes of an expression: those of its instructions. A bare expression
/// carries no end marker.
pub open spec fn expression_encoding(instructions: Seq<InstructionView>) -> Seq<u8> {
    sequence_encoding(instructions, 0)
}

/// Whether a control instruction has a binary form: whether all the
/// instructions nested in it have one.
pub open spec fn control_encodable(instruction: ControlView) -> bool
    decreases instruction,
{
    match instruction {
        ControlView::Block(_, body) => sequence_encodable(body, 0),
        ControlView::Loop(_, body) => sequence_encodable(body, 0),
        ControlView::If(_, body, None) => sequence_encodable(body, 0),
        ControlView::If(_, body, Some(alternate)) => sequence_encodable(body, 0)
            && sequence_encodable(alternate, 0),
        _ => true,
    }
}

/// Whether an instruction has a binary form.
pub open spec fn instruction_encodable(instruction: InstructionView) -> bool
    decreases instruction,
{
    match instruction {
        InstructionView::Numeric(numeric) => numeric_encodable(numeric),
        InstructionView::Control(control) => control_encodable(control),
        _ => true,
    }
}

/// Whether each instruction from index `from` on has a binary form.
pub open spec fn sequence_encodable(instructions: Seq<InstructionView>, from: nat) -> bool
    decreases instructions, instructions.len() - from,
{
    if from >= instructions.len() {
        true
    } else {
        instruction_encodable(instructions[from as int]) && sequence_encodable(
            instructions,
            from + 1,
        )
    }
}

/// Whether an expression has a binary form.
pub open spec fn expression_encodable(instructions: Seq<InstructionView>) -> bool {
    sequence_encodable(instructions, 0)
}

} // verus!
